//! The unit of world state: a base, an optional cover decoration, and a
//! visual style.

pub mod base;
pub mod cover;
pub mod style;

use vstd::prelude::*;
use crate::tile::base::Base;
use crate::tile::cover::Cover;
use crate::tile::style::Style;

verus! {

/// One cell of the world.
#[derive(PartialEq, Eq, Debug)]
pub struct Tile {
    pub base: Base,
    pub cover: Option<Cover>,
    pub style: Style,
}

/// The tile an ungenerated grid cell starts as: bare ground.
pub open spec fn default_tile() -> Tile {
    Tile { base: Base::Ground, cover: None, style: Style { bits: style::DEF } }
}

/// The tile of a ground cell, drawn dimmed.
pub open spec fn ground_tile() -> Tile {
    Tile { base: Base::Ground, cover: None, style: Style { bits: style::DEF_DIM } }
}

/// The tile of a wall cell.
pub open spec fn wall_tile() -> Tile {
    Tile { base: Base::Wall, cover: None, style: Style { bits: style::DEF } }
}

/// The tile of the door with the given index, drawn bold.
pub open spec fn door_tile(index: usize) -> Tile {
    Tile { base: Base::Door(index), cover: None, style: Style { bits: style::DEF_BOLD } }
}

/// The tile synthesized for a viewport cell outside the current room.
pub open spec fn void_tile() -> Tile {
    Tile { base: Base::Void, cover: None, style: Style { bits: style::DEF } }
}

/// The tile drawn where the player stands.
pub open spec fn player_tile() -> Tile {
    Tile { base: Base::Player, cover: None, style: Style { bits: style::DEF } }
}

/// `b` holds the same tile value as `a`; a message's string may be a
/// distinct allocation with the same characters.
pub open spec fn tile_alike(a: Tile, b: Tile) -> bool {
    &&& b.cover == a.cover
    &&& b.style == a.style
    &&& if a.base is Message {
            b.base matches Base::Message(t) && a.base matches Base::Message(s) && t@ == s@
        } else {
            b.base == a.base
        }
}

impl Tile {
    pub fn new(base: Base, cover: Option<Cover>, style: Style) -> (r: Tile)
        ensures
            r == (Tile { base, cover, style }),
    {
        Tile { base, cover, style }
    }

    pub fn ground() -> (r: Tile)
        ensures
            r == ground_tile(),
    {
        Tile { base: Base::Ground, cover: None, style: Style { bits: style::DEF_DIM } }
    }

    pub fn wall() -> (r: Tile)
        ensures
            r == wall_tile(),
    {
        Tile { base: Base::Wall, cover: None, style: Style { bits: style::DEF } }
    }

    pub fn door(index: usize) -> (r: Tile)
        ensures
            r == door_tile(index),
    {
        Tile { base: Base::Door(index), cover: None, style: Style { bits: style::DEF_BOLD } }
    }

    pub fn void() -> (r: Tile)
        ensures
            r == void_tile(),
    {
        Tile { base: Base::Void, cover: None, style: Style { bits: style::DEF } }
    }

    pub fn player() -> (r: Tile)
        ensures
            r == player_tile(),
    {
        Tile { base: Base::Player, cover: None, style: Style { bits: style::DEF } }
    }

    /// Whether this tile's base is of the same variant as `base`,
    /// ignoring payloads.
    pub fn has_base(&self, base: &Base) -> (r: bool)
        ensures
            r == base::same_variant(self.base, *base),
    {
        match (&self.base, base) {
            (Base::Void, Base::Void) => true,
            (Base::Player, Base::Player) => true,
            (Base::Ground, Base::Ground) => true,
            (Base::Wall, Base::Wall) => true,
            (Base::Water, Base::Water) => true,
            (Base::Message(_), Base::Message(_)) => true,
            (Base::Door(_), Base::Door(_)) => true,
            _ => false,
        }
    }
}

impl Clone for Tile {
    /// A clone holds the same tile value; for tiles whose base is not a
    /// message, the clone is equal to the original.
    fn clone(&self) -> (r: Self)
        ensures
            tile_alike(*self, r),
            !(self.base is Message) ==> r == *self,
    {
        Tile { base: self.base.clone(), cover: self.cover, style: self.style }
    }
}

impl Default for Tile {
    fn default() -> (r: Tile)
        ensures
            r == default_tile(),
    {
        Tile { base: Base::Ground, cover: None, style: Style { bits: style::DEF } }
    }
}

} // verus!
