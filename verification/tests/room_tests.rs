use endless::game::endless::room::square::SquareRoom;
use endless::game::endless::room::Room;
use endless::tile::base::Base;
use endless::tile::Tile;

fn door_indices(room: &SquareRoom) -> Vec<usize> {
    let mut found: Vec<usize> = Vec::new();
    for t in room.tiles.iter() {
        if let Base::Door(k) = t.base {
            found.push(k);
        }
    }
    found
}

#[test]
fn room_has_exactly_requested_doors() {
    let room = SquareRoom::new(77, 5, 12, 11);
    let mut found = door_indices(&room);
    found.sort();
    assert_eq!(found, vec![0, 1, 2, 3, 4]);
}

#[test]
fn zero_door_room_is_fully_walled() {
    let room = SquareRoom::new(1, 0, 10, 10);
    assert!(door_indices(&room).is_empty());
    for y in 0..10 {
        for x in 0..10 {
            let t = room.get_tile(x, y).unwrap();
            if x == 0 || x == 9 || y == 0 || y == 9 {
                assert_eq!(t.base, Base::Wall);
            } else {
                assert_eq!(t.base, Base::Ground);
            }
        }
    }
}

#[test]
fn full_budget_fills_every_candidate() {
    // a 10 by 10 ring has 2*10 + 2*10 - 8 = 32 non-corner cells
    let room = SquareRoom::new(2, 32, 10, 10);
    assert_eq!(door_indices(&room).len(), 32);
}

#[test]
fn no_corner_doors() {
    for _ in 0..20 {
        let room = SquareRoom::new(3, 8, 10, 14);
        let w = room.get_width();
        let h = room.get_height();
        for &(x, y) in &[(0, 0), (w - 1, 0), (0, h - 1), (w - 1, h - 1)] {
            let t = room.get_tile(x, y).unwrap();
            assert_eq!(t.base, Base::Wall);
        }
    }
}

#[test]
fn perimeter_closure() {
    for _ in 0..20 {
        let room = SquareRoom::new(4, 6, 11, 10);
        let w = room.get_width();
        let h = room.get_height();
        for y in 0..h {
            for x in 0..w {
                let t = room.get_tile(x, y).unwrap();
                if x == 0 || x == w - 1 || y == 0 || y == h - 1 {
                    assert!(matches!(t.base, Base::Wall | Base::Door(_)));
                } else {
                    assert_eq!(t.base, Base::Ground);
                }
            }
        }
    }
}

#[test]
fn door_indices_are_assigned_in_scan_order() {
    let room = SquareRoom::new(5, 4, 13, 12);
    let found = door_indices(&room);
    let expected: Vec<usize> = (0..4).collect();
    assert_eq!(found, expected);
}

#[test]
fn get_tile_bounds() {
    let room = SquareRoom::new(6, 0, 10, 12);
    assert!(room.get_tile(9, 11).is_some());
    assert!(room.get_tile(10, 5).is_none());
    assert!(room.get_tile(5, 12).is_none());
    let t: &Tile = room.get_tile(0, 0).unwrap();
    assert_eq!(t.base, Base::Wall);
}

#[test]
fn room_accessors() {
    let room = SquareRoom::new(123456789, 2, 10, 14);
    assert_eq!(room.get_uuid(), 123456789);
    assert_eq!(room.get_width(), 10);
    assert_eq!(room.get_height(), 14);
}
