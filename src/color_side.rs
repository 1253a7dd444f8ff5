//! The two sides.

use vstd::prelude::*;

verus! {

/// The side a piece belongs to, as the colour bit of a piece code.
pub type ColorSide = u8;

pub const WHITE: ColorSide = 0b1000;

pub const BLACK: ColorSide = 0b0000;

/// Whether `c` names one of the two sides.
pub open spec fn is_side(c: ColorSide) -> bool {
    c == WHITE || c == BLACK
}

/// The other side.
pub open spec fn opponent(c: ColorSide) -> ColorSide {
    if c == WHITE {
        BLACK
    } else {
        WHITE
    }
}

} // verus!
