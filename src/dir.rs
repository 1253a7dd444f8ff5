//! The sixteen unit moves on the board and the sets of them that each piece
//! uses.

use vstd::prelude::*;
use crate::color_side::WHITE;

verus! {

/// A unit move on the board: the eight king and slider directions, and the
/// eight knight leaps (`HorseUpLeft` is two ranks up and one file left,
/// `HorseRightUp` two files right and one rank up, and so on).
#[derive(Clone, Copy, Debug, PartialEq, Eq, Structural)]
pub enum Dir {
    Up,
    Down,
    Left,
    Right,
    UpLeft,
    UpRight,
    DownLeft,
    DownRight,
    HorseUpLeft,
    HorseUpRight,
    HorseRightUp,
    HorseRightDown,
    HorseDownRight,
    HorseDownLeft,
    HorseLeftDown,
    HorseLeftUp,
}

/// How many files a step in `d` moves (towards file H when positive).
pub open spec fn file_delta(d: Dir) -> int {
    match d {
        Dir::Up => 0,
        Dir::Down => 0,
        Dir::Left => -1,
        Dir::Right => 1,
        Dir::UpLeft => -1,
        Dir::UpRight => 1,
        Dir::DownLeft => -1,
        Dir::DownRight => 1,
        Dir::HorseUpLeft => -1,
        Dir::HorseUpRight => 1,
        Dir::HorseRightUp => 2,
        Dir::HorseRightDown => 2,
        Dir::HorseDownRight => 1,
        Dir::HorseDownLeft => -1,
        Dir::HorseLeftDown => -2,
        Dir::HorseLeftUp => -2,
    }
}

/// How many ranks a step in `d` moves (towards rank 8 when positive).
pub open spec fn rank_delta(d: Dir) -> int {
    match d {
        Dir::Up => 1,
        Dir::Down => -1,
        Dir::Left => 0,
        Dir::Right => 0,
        Dir::UpLeft => 1,
        Dir::UpRight => 1,
        Dir::DownLeft => -1,
        Dir::DownRight => -1,
        Dir::HorseUpLeft => 2,
        Dir::HorseUpRight => 2,
        Dir::HorseRightUp => 1,
        Dir::HorseRightDown => -1,
        Dir::HorseDownRight => -2,
        Dir::HorseDownLeft => -2,
        Dir::HorseLeftDown => -1,
        Dir::HorseLeftUp => 1,
    }
}

/// The four rook directions.
pub open spec fn is_orthogonal(d: Dir) -> bool {
    d == Dir::Up || d == Dir::Down || d == Dir::Left || d == Dir::Right
}

/// The four bishop directions.
pub open spec fn is_diagonal(d: Dir) -> bool {
    d == Dir::UpLeft || d == Dir::UpRight || d == Dir::DownLeft || d == Dir::DownRight
}

/// The eight knight leaps.
pub open spec fn is_leap(d: Dir) -> bool {
    !is_orthogonal(d) && !is_diagonal(d)
}

/// The eight directions of a king's step.
pub open spec fn king_dirs() -> Seq<Dir> {
    seq![
        Dir::Up,
        Dir::Right,
        Dir::Down,
        Dir::Left,
        Dir::UpLeft,
        Dir::UpRight,
        Dir::DownLeft,
        Dir::DownRight,
    ]
}

/// The rook's rays.
pub open spec fn rook_dirs() -> Seq<Dir> {
    seq![Dir::Up, Dir::Right, Dir::Down, Dir::Left]
}

/// The bishop's rays.
pub open spec fn bishop_dirs() -> Seq<Dir> {
    seq![Dir::UpLeft, Dir::UpRight, Dir::DownRight, Dir::DownLeft]
}

/// The queen's rays: the rook's, then the bishop's.
pub open spec fn queen_dirs() -> Seq<Dir> {
    rook_dirs() + bishop_dirs()
}

/// The eight knight leaps.
pub open spec fn knight_dirs() -> Seq<Dir> {
    seq![
        Dir::HorseUpLeft,
        Dir::HorseUpRight,
        Dir::HorseDownRight,
        Dir::HorseDownLeft,
        Dir::HorseLeftDown,
        Dir::HorseLeftUp,
        Dir::HorseRightDown,
        Dir::HorseRightUp,
    ]
}

/// A pawn attacks diagonally forward: up the board for white, down for black.
pub open spec fn pawn_dirs(side: u8) -> Seq<Dir> {
    if side == WHITE {
        seq![Dir::UpLeft, Dir::UpRight]
    } else {
        seq![Dir::DownLeft, Dir::DownRight]
    }
}

} // verus!
