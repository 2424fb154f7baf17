//! The room abstraction: a fixed-size tile grid that generates its own
//! interior, walls and doors.

pub mod square;

use vstd::prelude::*;
use crate::game::endless::ids::RoomId;
use crate::tile::Tile;

verus! {

/// A room: a fixed-size grid of tiles, generated once with a requested
/// number of doors and never resized.
pub trait Room: Sized {
    /// The arguments under which a room of this shape can be generated;
    /// generation is owed exactly on these.
    spec fn gen_pre(num_doors: usize, width: usize, height: usize) -> bool;

    /// What holds of every generated room of this shape.
    spec fn inv(&self) -> bool;

    fn new(uuid: RoomId, num_doors: usize, width: usize, height: usize) -> (r: Self)
        requires
            Self::gen_pre(num_doors, width, height),
        ensures
            r.inv(),
    ;

    fn get_uuid(&self) -> RoomId;

    fn get_width(&self) -> usize;

    fn get_height(&self) -> usize;

    fn get_tile(&self, x: usize, y: usize) -> Option<&Tile>
        requires
            self.inv(),
    ;
}

} // verus!
