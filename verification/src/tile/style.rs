//! Visual attributes of a tile: emphasis flags and a color selector,
//! packed as bits of a `u32`.

use vstd::prelude::*;
use crate::utils;

verus! {

pub const STANDOUT: u32 = 1u32 << 0;
pub const BOLD: u32 = 1u32 << 1;
pub const UNDERLINE: u32 = 1u32 << 2;
pub const DIM: u32 = 1u32 << 3;

pub const DARK1: u32 = 1u32 << 4;
pub const DARK2: u32 = 1u32 << 5;
pub const DARK3: u32 = 1u32 << 6;
pub const DARK4: u32 = 1u32 << 7;
pub const DARK5: u32 = 1u32 << 8;
pub const DARK6: u32 = 1u32 << 9;
pub const DARK7: u32 = 1u32 << 10;
pub const DARK8: u32 = 1u32 << 11;

pub const BLACK: u32 = 1u32 << 12;
pub const RED: u32 = 1u32 << 13;
pub const GREEN: u32 = 1u32 << 14;
pub const YELLOW: u32 = 1u32 << 15;
pub const BLUE: u32 = 1u32 << 16;
pub const MAGENTA: u32 = 1u32 << 17;
pub const CYAN: u32 = 1u32 << 18;
pub const WHITE: u32 = 1u32 << 19;

pub const DEF: u32 = BLACK;
pub const DEF_STANDOUT: u32 = BLACK | STANDOUT;
pub const DEF_BOLD: u32 = BLACK | BOLD;
pub const DEF_UNDERLINE: u32 = BLACK | UNDERLINE;
pub const DEF_DIM: u32 = BLACK | DIM;

/// A set of visual attributes, one bit per flag.
#[derive(Clone, Copy, PartialEq, Eq, Structural, Debug)]
pub struct Style {
    pub bits: u32,
}

/// The single-bit style selecting color number `k`, for `k` in `[4, 20)`
/// (the eight dark shades, then the eight named colors).
pub open spec fn color_bit(k: int) -> u32 {
    if k == 4 { DARK1 }
    else if k == 5 { DARK2 }
    else if k == 6 { DARK3 }
    else if k == 7 { DARK4 }
    else if k == 8 { DARK5 }
    else if k == 9 { DARK6 }
    else if k == 10 { DARK7 }
    else if k == 11 { DARK8 }
    else if k == 12 { BLACK }
    else if k == 13 { RED }
    else if k == 14 { GREEN }
    else if k == 15 { YELLOW }
    else if k == 16 { BLUE }
    else if k == 17 { MAGENTA }
    else if k == 18 { CYAN }
    else { WHITE }
}

impl Style {
    /// A style whose only set bit selects one of the sixteen colors,
    /// chosen at random.
    pub fn rnd_color() -> (r: Self)
        ensures
            exists|k: int| 4 <= k < 20 && r.bits == color_bit(k),
    {
        let k = utils::rnd_within(4, 20);
        let bits = match k {
            4 => DARK1,
            5 => DARK2,
            6 => DARK3,
            7 => DARK4,
            8 => DARK5,
            9 => DARK6,
            10 => DARK7,
            11 => DARK8,
            12 => BLACK,
            13 => RED,
            14 => GREEN,
            15 => YELLOW,
            16 => BLUE,
            17 => MAGENTA,
            18 => CYAN,
            _ => WHITE,
        };
        proof {
            assert(color_bit(k as int) == bits);
        }
        Style { bits }
    }
}

impl Default for Style {
    fn default() -> (r: Self)
        ensures
            r.bits == DEF,
    {
        Style { bits: DEF }
    }
}

} // verus!
