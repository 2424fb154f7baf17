//! The explorer: the single movable entity, identified by the room it is
//! in and its coordinates within that room's grid.

use vstd::prelude::*;
use crate::game::endless::ids::RoomId;

verus! {

/// The explorer's world state: current room identity and in-room
/// coordinates.
pub struct Player {
    pub room: RoomId,
    pub x: usize,
    pub y: usize,
}

impl Player {
    pub fn new(room: RoomId, x: usize, y: usize) -> (r: Self)
        ensures
            r.room == room,
            r.x == x,
            r.y == y,
    {
        Self { room, x, y }
    }

    /// A placeholder explorer, used before the dungeon is built.
    pub fn nil() -> (r: Self)
        ensures
            r.room == 0,
            r.x == 0,
            r.y == 0,
    {
        Self { room: 0, x: 0, y: 0 }
    }

    pub fn get_room(&self) -> (r: &RoomId)
        ensures
            *r == self.room,
    {
        &self.room
    }

    pub fn get_x(&self) -> (r: usize)
        ensures
            r == self.x,
    {
        self.x
    }

    pub fn get_y(&self) -> (r: usize)
        ensures
            r == self.y,
    {
        self.y
    }

    pub fn set_room(&mut self, room: RoomId)
        ensures
            final(self).room == room,
            final(self).x == old(self).x,
            final(self).y == old(self).y,
    {
        self.room = room;
    }

    pub fn set_x(&mut self, x: usize)
        ensures
            final(self).x == x,
            final(self).room == old(self).room,
            final(self).y == old(self).y,
    {
        self.x = x;
    }

    pub fn set_y(&mut self, y: usize)
        ensures
            final(self).y == y,
            final(self).room == old(self).room,
            final(self).x == old(self).x,
    {
        self.y = y;
    }
}

} // verus!
