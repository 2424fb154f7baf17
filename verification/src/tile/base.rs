//! The base of a tile: what fundamentally occupies a grid cell.

use vstd::prelude::*;

verus! {

/// What a world cell fundamentally is. `Door` carries the index of the
/// door within its room, the key into the dungeon's link table.
/// `Message` carries free text. `Void` stands for cells outside any room
/// and is synthesized only for viewport cells, never stored in a room.
#[derive(PartialEq, Eq, Debug)]
pub enum Base {
    Void,
    Player,
    Ground,
    Wall,
    Water,
    Message(String),
    Door(usize),
}

/// Two bases agree on their variant, ignoring any payload.
pub open spec fn same_variant(a: Base, b: Base) -> bool {
    match (a, b) {
        (Base::Void, Base::Void) => true,
        (Base::Player, Base::Player) => true,
        (Base::Ground, Base::Ground) => true,
        (Base::Wall, Base::Wall) => true,
        (Base::Water, Base::Water) => true,
        (Base::Message(_), Base::Message(_)) => true,
        (Base::Door(_), Base::Door(_)) => true,
        _ => false,
    }
}

impl Clone for Base {
    /// A clone is the same base; a cloned message may be a distinct string
    /// value, but its characters are the same.
    fn clone(&self) -> (r: Self)
        ensures
            self is Message ==> (r matches Base::Message(t)
                && self matches Base::Message(s) && t@ == s@),
            !(self is Message) ==> r == *self,
    {
        match self {
            Base::Void => Base::Void,
            Base::Player => Base::Player,
            Base::Ground => Base::Ground,
            Base::Wall => Base::Wall,
            Base::Water => Base::Water,
            Base::Message(s) => Base::Message(s.clone()),
            Base::Door(i) => Base::Door(*i),
        }
    }
}

impl Default for Base {
    fn default() -> (r: Self)
        ensures
            r == Base::Ground,
    {
        Base::Ground
    }
}

} // verus!
