//! Squares, their coordinates, and steps between them.

use vstd::prelude::*;
use crate::dir::{Dir, file_delta, rank_delta, rook_dirs, knight_dirs};

verus! {

/// A board square: `0..64`, A1 = 0, H1 = 7, A8 = 56, H8 = 63.
pub type Square = u8;

pub const A1: Square = 0;
pub const B1: Square = 1;
pub const C1: Square = 2;
pub const D1: Square = 3;
pub const E1: Square = 4;
pub const F1: Square = 5;
pub const G1: Square = 6;
pub const H1: Square = 7;

pub const A2: Square = 8;
pub const B2: Square = 9;
pub const C2: Square = 10;
pub const D2: Square = 11;
pub const E2: Square = 12;
pub const F2: Square = 13;
pub const G2: Square = 14;
pub const H2: Square = 15;

pub const A3: Square = 16;
pub const B3: Square = 17;
pub const C3: Square = 18;
pub const D3: Square = 19;
pub const E3: Square = 20;
pub const F3: Square = 21;
pub const G3: Square = 22;
pub const H3: Square = 23;

pub const A4: Square = 24;
pub const B4: Square = 25;
pub const C4: Square = 26;
pub const D4: Square = 27;
pub const E4: Square = 28;
pub const F4: Square = 29;
pub const G4: Square = 30;
pub const H4: Square = 31;

pub const A5: Square = 32;
pub const B5: Square = 33;
pub const C5: Square = 34;
pub const D5: Square = 35;
pub const E5: Square = 36;
pub const F5: Square = 37;
pub const G5: Square = 38;
pub const H5: Square = 39;

pub const A6: Square = 40;
pub const B6: Square = 41;
pub const C6: Square = 42;
pub const D6: Square = 43;
pub const E6: Square = 44;
pub const F6: Square = 45;
pub const G6: Square = 46;
pub const H6: Square = 47;

pub const A7: Square = 48;
pub const B7: Square = 49;
pub const C7: Square = 50;
pub const D7: Square = 51;
pub const E7: Square = 52;
pub const F7: Square = 53;
pub const G7: Square = 54;
pub const H7: Square = 55;

pub const A8: Square = 56;
pub const B8: Square = 57;
pub const C8: Square = 58;
pub const D8: Square = 59;
pub const E8: Square = 60;
pub const F8: Square = 61;
pub const G8: Square = 62;
pub const H8: Square = 63;

/// File (0 = A) and rank (0 = rank 1) of a square.
pub struct Coordination(pub u8, pub u8);

/// The file of square `s`: 0 for file A up to 7 for file H.
pub open spec fn file_of(s: int) -> int {
    s % 8
}

/// The rank of square `s`: 0 for rank 1 up to 7 for rank 8.
pub open spec fn rank_of(s: int) -> int {
    s / 8
}

/// The square on file `f` and rank `r`.
pub open spec fn square_at(f: int, r: int) -> int {
    r * 8 + f
}

pub open spec fn on_board(f: int, r: int) -> bool {
    0 <= f < 8 && 0 <= r < 8
}

/// The square one step in `d` from `s`, found from the coordinates, or `None`
/// where that step leaves the board.
pub open spec fn step(s: int, d: Dir) -> Option<int> {
    let f = file_of(s) + file_delta(d);
    let r = rank_of(s) + rank_delta(d);
    if 0 <= s < 64 && on_board(f, r) {
        Some(square_at(f, r))
    } else {
        None
    }
}

/// The edge test of each direction: whether a step in `d` from file `f` and
/// rank `r` leaves the board.
pub open spec fn leaves_board(f: int, r: int, d: Dir) -> bool {
    match d {
        Dir::Up => r == 7,
        Dir::Down => r == 0,
        Dir::Left => f == 0,
        Dir::Right => f == 7,
        Dir::UpLeft => f == 0 || r == 7,
        Dir::UpRight => f == 7 || r == 7,
        Dir::DownLeft => f == 0 || r == 0,
        Dir::DownRight => f == 7 || r == 0,
        Dir::HorseUpLeft => r >= 6 || f == 0,
        Dir::HorseUpRight => r >= 6 || f == 7,
        Dir::HorseRightUp => f >= 6 || r == 7,
        Dir::HorseRightDown => f >= 6 || r == 0,
        Dir::HorseDownRight => r <= 1 || f == 7,
        Dir::HorseDownLeft => r <= 1 || f == 0,
        Dir::HorseLeftDown => f <= 1 || r == 0,
        Dir::HorseLeftUp => f <= 1 || r == 7,
    }
}

/// How many of `dirs` lead from `s` to a square of the board.
pub open spec fn open_count(s: int, dirs: Seq<Dir>) -> nat
    decreases dirs.len(),
{
    if dirs.len() == 0 {
        0
    } else {
        open_count(s, dirs.drop_last()) + if step(s, dirs.last()) is Some {
            1nat
        } else {
            0nat
        }
    }
}

/// Square `s` lies on file A or H, or on rank 1 or 8.
pub open spec fn on_edge(s: int) -> bool {
    file_of(s) == 0 || file_of(s) == 7 || rank_of(s) == 0 || rank_of(s) == 7
}

/// Square `s` is one of the four corners.
pub open spec fn is_corner(s: int) -> bool {
    (file_of(s) == 0 || file_of(s) == 7) && (rank_of(s) == 0 || rank_of(s) == 7)
}

/// A step from a square of the board fails exactly where the edge test of
/// its direction holds on the square's file and rank.
pub proof fn lemma_step_edge_test(s: int, d: Dir)
    requires
        0 <= s < 64,
    ensures
        (step(s, d) is None) == leaves_board(file_of(s), rank_of(s), d),
{
}

/// A corner square has two orthogonal neighbours, another square on the edge
/// three, and a square inside the board four.
pub proof fn lemma_orthogonal_neighbours(s: int)
    requires
        0 <= s < 64,
    ensures
        open_count(s, rook_dirs()) == if is_corner(s) {
            2int
        } else if on_edge(s) {
            3int
        } else {
            4int
        },
{
    reveal_with_fuel(open_count, 5);
}

/// From a corner two of the eight knight leaps stay on the board; from a
/// square two files and two ranks away from every edge all eight do.
pub proof fn lemma_knight_leaps(s: int)
    requires
        0 <= s < 64,
    ensures
        is_corner(s) ==> open_count(s, knight_dirs()) == 2,
        2 <= file_of(s) <= 5 && 2 <= rank_of(s) <= 5 ==> open_count(s, knight_dirs()) == 8,
{
    reveal_with_fuel(open_count, 9);
}

/// The capital letter of file `f`.
pub open spec fn file_letter(f: int) -> char {
    if f == 0 {
        'A'
    } else if f == 1 {
        'B'
    } else if f == 2 {
        'C'
    } else if f == 3 {
        'D'
    } else if f == 4 {
        'E'
    } else if f == 5 {
        'F'
    } else if f == 6 {
        'G'
    } else {
        'H'
    }
}

/// Coordinates and neighbours of a square.
pub trait Squarable {
    /// The square's index.
    spec fn square_index(&self) -> int;

    /// File and rank of the square, both from zero.
    fn coord(&self) -> (r: Coordination)
        requires
            0 <= self.square_index() < 64,
        ensures
            r.0 == file_of(self.square_index()),
            r.1 == rank_of(self.square_index()),
    ;

    /// The file of the square, from zero.
    fn file(&self) -> (r: u8)
        requires
            0 <= self.square_index() < 64,
        ensures
            r == file_of(self.square_index()),
    ;

    /// The rank of the square, from zero.
    fn rank(&self) -> (r: u8)
        requires
            0 <= self.square_index() < 64,
        ensures
            r == rank_of(self.square_index()),
    ;

    /// The capital letter of the square's file.
    fn file_as_char(&self) -> (r: char)
        requires
            0 <= self.square_index() < 64,
        ensures
            r == file_letter(file_of(self.square_index())),
    ;

    /// The square one step in `dir`, or `None` where the step leaves the board.
    fn get(&self, dir: &Dir) -> (r: Option<Square>)
        requires
            0 <= self.square_index() < 64,
        ensures
            r is Some <==> step(self.square_index(), *dir) is Some,
            r is Some ==> r->0 == step(self.square_index(), *dir)->0,
    ;
}

impl Squarable for Square {
    open spec fn square_index(&self) -> int {
        *self as int
    }

    fn coord(&self) -> (r: Coordination) {
        Coordination(self.file(), self.rank())
    }

    fn file(&self) -> (r: u8) {
        *self % 8
    }

    fn rank(&self) -> (r: u8) {
        *self / 8
    }

    fn file_as_char(&self) -> (r: char) {
        match self.file() {
            0 => 'A',
            1 => 'B',
            2 => 'C',
            3 => 'D',
            4 => 'E',
            5 => 'F',
            6 => 'G',
            _ => 'H',
        }
    }

    fn get(&self, dir: &Dir) -> (r: Option<Square>) {
        if !is_possible(*self as i8, dir) {
            return None;
        }
        let i: u8 = *self;
        let target: u8 = match dir {
            Dir::Up => i + 8,
            Dir::Down => i - 8,
            Dir::Left => i - 1,
            Dir::Right => i + 1,
            Dir::UpLeft => i + 7,
            Dir::UpRight => i + 9,
            Dir::DownLeft => i - 9,
            Dir::DownRight => i - 7,
            Dir::HorseUpLeft => i + 15,
            Dir::HorseUpRight => i + 17,
            Dir::HorseRightUp => i + 10,
            Dir::HorseRightDown => i - 6,
            Dir::HorseDownRight => i - 15,
            Dir::HorseDownLeft => i - 17,
            Dir::HorseLeftDown => i - 10,
            Dir::HorseLeftUp => i + 6,
        };
        Some(target)
    }
}

/// Whether a step in `dir` from square `index` stays on the board, decided on
/// the file and rank of the square alone; `false` for an index off the board.
pub fn is_possible(index: i8, dir: &Dir) -> (r: bool)
    ensures
        r == step(index as int, *dir) is Some,
{
    if index < 0 || index > 63 {
        return false;
    }
    let square: Square = index as Square;
    let Coordination(file, rank) = square.coord();
    match dir {
        Dir::Up => rank != 7,
        Dir::Down => rank != 0,
        Dir::Left => file != 0,
        Dir::Right => file != 7,
        Dir::UpLeft => file != 0 && rank != 7,
        Dir::UpRight => file != 7 && rank != 7,
        Dir::DownLeft => file != 0 && rank != 0,
        Dir::DownRight => file != 7 && rank != 0,
        Dir::HorseUpLeft => rank < 6 && file != 0,
        Dir::HorseUpRight => rank < 6 && file != 7,
        Dir::HorseRightUp => file < 6 && rank != 7,
        Dir::HorseRightDown => file < 6 && rank != 0,
        Dir::HorseDownRight => file != 7 && rank > 1,
        Dir::HorseDownLeft => file != 0 && rank > 1,
        Dir::HorseLeftDown => file > 1 && rank != 0,
        Dir::HorseLeftUp => file > 1 && rank != 7,
    }
}

} // verus!
