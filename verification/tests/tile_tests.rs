use endless::tile::base::Base;
use endless::tile::cover::Cover;
use endless::tile::style::{self, Style};
use endless::tile::Tile;

#[test]
fn ground_tile_shape() {
    let t = Tile::ground();
    assert_eq!(t.base, Base::Ground);
    assert_eq!(t.cover, None);
    assert_eq!(t.style.bits, style::DEF_DIM);
}

#[test]
fn wall_tile_shape() {
    let t = Tile::wall();
    assert_eq!(t.base, Base::Wall);
    assert_eq!(t.cover, None);
    assert_eq!(t.style.bits, style::DEF);
}

#[test]
fn door_tile_shape() {
    let t = Tile::door(7);
    assert_eq!(t.base, Base::Door(7));
    assert_eq!(t.cover, None);
    assert_eq!(t.style.bits, style::DEF_BOLD);
}

#[test]
fn void_and_player_tiles() {
    assert_eq!(Tile::void().base, Base::Void);
    assert_eq!(Tile::player().base, Base::Player);
}

#[test]
fn default_tile_is_bare_ground() {
    let t = Tile::default();
    assert_eq!(t.base, Base::Ground);
    assert_eq!(t.cover, None);
    assert_eq!(t.style.bits, style::DEF);
}

#[test]
fn tile_new_keeps_fields() {
    let t = Tile::new(Base::Water, Some(Cover::Grass), Style { bits: style::RED });
    assert_eq!(t.base, Base::Water);
    assert_eq!(t.cover, Some(Cover::Grass));
    assert_eq!(t.style.bits, style::RED);
}

#[test]
fn has_base_ignores_payload() {
    let t = Tile::door(3);
    assert!(t.has_base(&Base::Door(42)));
    assert!(!t.has_base(&Base::Wall));
    let m = Tile::new(Base::Message(String::from("hello")), None, Style { bits: style::DEF });
    assert!(m.has_base(&Base::Message(String::new())));
    assert!(!m.has_base(&Base::Ground));
}

#[test]
fn clone_preserves_tiles() {
    let t = Tile::door(5);
    assert_eq!(t.clone(), t);
    let m = Tile::new(Base::Message(String::from("abc")), None, Style { bits: style::DEF });
    assert_eq!(m.clone(), m);
}

#[test]
fn base_default_is_ground() {
    assert_eq!(Base::default(), Base::Ground);
}

#[test]
fn style_default_selects_black() {
    assert_eq!(Style::default().bits, style::DEF);
}

#[test]
fn rnd_color_is_a_single_color_bit() {
    let colors = [
        style::DARK1,
        style::DARK2,
        style::DARK3,
        style::DARK4,
        style::DARK5,
        style::DARK6,
        style::DARK7,
        style::DARK8,
        style::BLACK,
        style::RED,
        style::GREEN,
        style::YELLOW,
        style::BLUE,
        style::MAGENTA,
        style::CYAN,
        style::WHITE,
    ];
    for _ in 0..100 {
        let s = Style::rnd_color();
        assert!(colors.contains(&s.bits));
    }
}
