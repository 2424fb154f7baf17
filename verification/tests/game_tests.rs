use endless::console::messages::BottomMessage;
use endless::console::{ArrowType, InputType, KeyType};
use endless::game::endless::player::Player;
use endless::game::endless::ids::room_id_hex;
use endless::game::endless::room::Room;
use endless::game::endless::EndlessGame;
use endless::game::Game;
use endless::tile::base::Base;
use endless::ui::{MessagePosition, MessageType, Ui};

fn room_index_of(game: &EndlessGame, id: u128) -> usize {
    game.rooms.iter().position(|r| r.uuid == id).expect("player's room must exist")
}

fn assert_narrative(ui: &Ui, room: u128) {
    let flavors = [
        "Message number 0.",
        "Message number 1.",
        "Message number 2.",
        "Message number 3.",
        "Message number 4.",
    ];
    let Ui::Message(t, p, s) = ui;
    assert_eq!(*t, MessageType::Static);
    assert_eq!(*p, MessagePosition::Bottom);
    assert!(s.starts_with("Hello "));
    let expected_mid = format!(", you are now in room {}. ", room_id_hex(room));
    assert!(s.contains(&expected_mid), "unexpected message: {}", s);
    assert!(flavors.iter().any(|f| s.ends_with(f)), "unexpected flavor: {}", s);
}

#[test]
fn new_game_is_consistent() {
    let game = <EndlessGame as Game>::new(80, 24);
    assert!((5..11).contains(&game.rooms.len()));
    // the player stands in the interior of a room that exists
    let ridx = room_index_of(&game, *game.player.get_room());
    let room = &game.rooms[ridx];
    assert!((1..room.get_width() - 1).contains(&game.player.get_x()));
    assert!((1..room.get_height() - 1).contains(&game.player.get_y()));
}

#[test]
fn every_link_has_its_reciprocal() {
    let game = <EndlessGame as Game>::new(80, 24);
    assert!(!game.links.is_empty());
    for (from, to) in game.links.iter() {
        assert_ne!(from.0, to.0, "a link joins two distinct rooms");
        assert!(
            game.links.iter().any(|(f2, t2)| *f2 == *to && *t2 == *from),
            "missing reciprocal entry"
        );
    }
}

#[test]
fn door_budgets_match_link_table() {
    let game = <EndlessGame as Game>::new(80, 24);
    for room in game.rooms.iter() {
        let doors = room.tiles.iter().filter(|t| matches!(t.base, Base::Door(_))).count();
        let endpoints =
            game.links.iter().filter(|(from, _)| from.0 == room.uuid).count();
        assert_eq!(doors, endpoints);
        for d in 0..doors {
            assert!(
                game.links.iter().any(|(from, _)| *from == (room.uuid, d)),
                "door index without a link entry"
            );
        }
    }
}

#[test]
fn single_room_graph_has_no_doors() {
    let mut game = <EndlessGame as Game>::new(5, 5);
    game.init(1, 0);
    assert_eq!(game.rooms.len(), 1);
    assert!(game.links.is_empty());
    let doors =
        game.rooms[0].tiles.iter().filter(|t| matches!(t.base, Base::Door(_))).count();
    assert_eq!(doors, 0);
    assert_eq!(*game.player.get_room(), game.rooms[0].uuid);
}

#[test]
fn viewport_scenario_five_by_five() {
    let mut game = <EndlessGame as Game>::new(5, 5);
    game.init(1, 0);
    game.player.set_x(3);
    game.player.set_y(3);
    let room_tiles: Vec<_> = (1..6)
        .flat_map(|y| (1..6).map(move |x| (x, y)))
        .map(|(x, y)| game.rooms[0].get_tile(x, y).unwrap().clone())
        .collect();
    let buffer = game.gen_buffer().expect("a buffer is produced").clone();
    assert_eq!(buffer.len(), 25);
    assert_eq!(buffer[12].base, Base::Player);
    // every other cell shows the room at world offsets (1,1) through (5,5)
    for i in 0..25 {
        if i != 12 {
            assert_eq!(buffer[i].base, room_tiles[i].base);
        }
    }
    assert_eq!(buffer[0].base, Base::Ground);
    assert_eq!(buffer[24].base, Base::Ground);
}

#[test]
fn viewport_center_is_player() {
    let mut game = <EndlessGame as Game>::new(9, 7);
    let buffer = game.gen_buffer().unwrap();
    assert_eq!(buffer.len(), 63);
    assert_eq!(buffer[(7 / 2) * 9 + 9 / 2].base, Base::Player);
}

#[test]
fn wall_move_is_rejected() {
    let mut game = <EndlessGame as Game>::new(5, 5);
    game.init(1, 0);
    game.player.set_x(1);
    game.player.set_y(1);
    let room = *game.player.get_room();

    let out = game.react(InputType::Arrow(ArrowType::Left));
    assert!(out.is_empty());
    assert_eq!(*game.player.get_room(), room);
    assert_eq!(game.player.get_x(), 1);
    assert_eq!(game.player.get_y(), 1);

    let out = game.react(InputType::Arrow(ArrowType::Up));
    assert!(out.is_empty());
    assert_eq!(game.player.get_x(), 1);
    assert_eq!(game.player.get_y(), 1);
}

#[test]
fn ground_move_shifts_position() {
    let mut game = <EndlessGame as Game>::new(5, 5);
    game.init(1, 0);
    game.player.set_x(3);
    game.player.set_y(3);
    let out = game.react(InputType::Arrow(ArrowType::Right));
    assert!(out.is_empty());
    assert_eq!(game.player.get_x(), 4);
    assert_eq!(game.player.get_y(), 3);
    let out = game.react(InputType::Arrow(ArrowType::Down));
    assert!(out.is_empty());
    assert_eq!(game.player.get_x(), 4);
    assert_eq!(game.player.get_y(), 4);
}

#[test]
fn door_traversal_changes_room() {
    let mut game = <EndlessGame as Game>::new(5, 5);
    game.init(2, 1);
    // one link: each room carries exactly door index 0
    assert_eq!(game.links.len(), 2);
    let start = *game.player.get_room();
    let ridx = room_index_of(&game, start);

    // stand next to the door and step onto it
    let (w, h) = (game.rooms[ridx].get_width(), game.rooms[ridx].get_height());
    let mut placed = None;
    'outer: for y in 0..h {
        for x in 0..w {
            if let Some(t) = game.rooms[ridx].get_tile(x, y) {
                if matches!(t.base, Base::Door(_)) {
                    placed = Some((x, y));
                    break 'outer;
                }
            }
        }
    }
    let (dx, dy) = placed.expect("the room has a door");
    let arrow = if dy == 0 {
        game.player.set_x(dx);
        game.player.set_y(1);
        ArrowType::Up
    } else if dy == h - 1 {
        game.player.set_x(dx);
        game.player.set_y(h - 2);
        ArrowType::Down
    } else if dx == 0 {
        game.player.set_x(1);
        game.player.set_y(dy);
        ArrowType::Left
    } else {
        game.player.set_x(w - 2);
        game.player.set_y(dy);
        ArrowType::Right
    };

    let expected_target = game
        .links
        .iter()
        .find(|(from, _)| *from == (start, 0))
        .expect("door 0 is linked")
        .1
         .0;

    let out = game.react(InputType::Arrow(arrow));
    assert_eq!(*game.player.get_room(), expected_target);
    assert_ne!(*game.player.get_room(), start);

    // the explorer lands inside the target room's interior
    let tidx = room_index_of(&game, expected_target);
    let troom = &game.rooms[tidx];
    assert!((1..troom.get_width() - 1).contains(&game.player.get_x()));
    assert!((1..troom.get_height() - 1).contains(&game.player.get_y()));

    // exactly one narrative event announcing the new room
    assert_eq!(out.len(), 1);
    assert_narrative(&out[0], expected_target);
}

#[test]
fn resize_invalidates_buffer() {
    let mut game = <EndlessGame as Game>::new(5, 5);
    game.gen_buffer();
    assert!(game.buffer.is_some());
    let out = game.react(InputType::Resize(7, 9));
    assert!(out.is_empty());
    assert!(game.buffer.is_none());
    let buffer = game.gen_buffer().unwrap();
    assert_eq!(buffer.len(), 63);
}

#[test]
fn first_frame_emits_greeting() {
    let mut game = <EndlessGame as Game>::new(5, 5);
    let room = *game.player.get_room();
    let x = game.player.get_x();
    let out = game.react(InputType::FirstFrame);
    assert_eq!(out.len(), 1);
    assert_narrative(&out[0], room);
    assert_eq!(*game.player.get_room(), room);
    assert_eq!(game.player.get_x(), x);
}

#[test]
fn other_inputs_are_ignored() {
    let mut game = <EndlessGame as Game>::new(5, 5);
    let room = *game.player.get_room();
    let (x, y) = (game.player.get_x(), game.player.get_y());
    for input in [
        InputType::Char('a'),
        InputType::Func(3),
        InputType::Key(KeyType::Enter),
    ] {
        let out = game.react(input);
        assert!(out.is_empty());
        assert_eq!(*game.player.get_room(), room);
        assert_eq!(game.player.get_x(), x);
        assert_eq!(game.player.get_y(), y);
    }
}

#[test]
fn bottom_message_keeps_text() {
    let m = BottomMessage::new(String::from("hello there"));
    assert_eq!(m.get_text(), "hello there");
}

#[test]
fn player_accessors() {
    let mut p = Player::new(42, 3, 4);
    assert_eq!(*p.get_room(), 42);
    assert_eq!(p.get_x(), 3);
    assert_eq!(p.get_y(), 4);
    p.set_room(7);
    p.set_x(8);
    p.set_y(9);
    assert_eq!(*p.get_room(), 7);
    assert_eq!(p.get_x(), 8);
    assert_eq!(p.get_y(), 9);
    let n = Player::nil();
    assert_eq!(*n.get_room(), 0);
    assert_eq!(n.get_x(), 0);
    assert_eq!(n.get_y(), 0);
}
