//! Optional decoration drawn over a tile's base.

use vstd::prelude::*;

verus! {

/// A decoration that may sit on top of a tile's base. Room generation
/// leaves every cell bare; covers are placed only by future content.
#[derive(Clone, Copy, PartialEq, Eq, Structural, Debug)]
pub enum Cover {
    Grass,
    Rubble,
}

} // verus!
