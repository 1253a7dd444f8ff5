//! Bitboards: a `u64` as a set of squares, and its drawing as a grid.

use vstd::prelude::*;
use crate::color_side::{ColorSide, WHITE, BLACK};
use crate::piece::{PieceKind, PAWN, KING, ROOK, QUEEN, KNIGHT, BISHOP};
use crate::square::{Square, file_of, rank_of};
use vstd::string::StringExecFns;

verus! {

/// A set of squares, one bit each: square `s` is bit `63 - s`, so that the
/// number written out in binary reads A1, B1, ..., H1, A2, ... from the left.
pub type Bitboard = u64;

/// Whether bit `i` (counted from the least significant end) of `b` is one.
pub open spec fn bit_set(b: u64, i: u64) -> bool {
    (b >> i) & 1 == 1
}

/// Whether square `s` is in the bitboard `b`.
pub open spec fn has_square(b: Bitboard, s: int) -> bool {
    0 <= s < 64 && bit_set(b, (63 - s) as u64)
}

/// The squares that the bitboard `b` holds.
pub open spec fn squares_of(b: Bitboard) -> Set<int> {
    Set::new(|s: int| has_square(b, s))
}

/// The squares named in `v`.
pub open spec fn listed(v: Seq<Square>) -> Set<int> {
    Set::new(|s: int| exists|j: int| 0 <= j < v.len() && v[j] as int == s)
}

/// The kind that starts the game on file `f` of the first and last rank.
pub open spec fn back_rank_kind(f: int) -> PieceKind {
    if f == 0 || f == 7 {
        ROOK
    } else if f == 1 || f == 6 {
        KNIGHT
    } else if f == 2 || f == 5 {
        BISHOP
    } else if f == 3 {
        QUEEN
    } else {
        KING
    }
}

/// The squares on which pieces of kind `k`, of either side, start the game.
pub open spec fn initial_kind_squares(k: PieceKind) -> Set<int> {
    Set::new(
        |s: int|
            0 <= s < 64 && if rank_of(s) == 1 || rank_of(s) == 6 {
                k == PAWN
            } else if rank_of(s) == 0 || rank_of(s) == 7 {
                k == back_rank_kind(file_of(s))
            } else {
                false
            },
    )
}

/// The squares on which the pieces of side `c` start the game.
pub open spec fn initial_color_squares(c: ColorSide) -> Set<int> {
    Set::new(
        |s: int|
            0 <= s < 64 && if c == WHITE {
                rank_of(s) <= 1
            } else if c == BLACK {
                rank_of(s) >= 6
            } else {
                false
            },
    )
}

const PAWNS_START: u64 = 0b00000000_11111111_00000000_00000000_00000000_00000000_11111111_00000000;

const KINGS_START: u64 = 0b00001000_00000000_00000000_00000000_00000000_00000000_00000000_00001000;

const ROOKS_START: u64 = 0b10000001_00000000_00000000_00000000_00000000_00000000_00000000_10000001;

const QUEENS_START: u64 = 0b00010000_00000000_00000000_00000000_00000000_00000000_00000000_00010000;

const KNIGHTS_START: u64 = 0b01000010_00000000_00000000_00000000_00000000_00000000_00000000_01000010;

const BISHOPS_START: u64 = 0b00100100_00000000_00000000_00000000_00000000_00000000_00000000_00100100;

const WHITE_START: u64 = 0b11111111_11111111_00000000_00000000_00000000_00000000_00000000_00000000;

const BLACK_START: u64 = 0b00000000_00000000_00000000_00000000_00000000_00000000_11111111_11111111;

proof fn lemma_start_bits(s: u64)
    requires
        s < 64,
    ensures
        bit_set(PAWNS_START, (63 - s) as u64) == (s / 8 == 1 || s / 8 == 6),
        bit_set(KINGS_START, (63 - s) as u64) == ((s / 8 == 0 || s / 8 == 7) && s % 8 == 4),
        bit_set(ROOKS_START, (63 - s) as u64) == ((s / 8 == 0 || s / 8 == 7) && (s % 8 == 0 || s % 8 == 7)),
        bit_set(QUEENS_START, (63 - s) as u64) == ((s / 8 == 0 || s / 8 == 7) && s % 8 == 3),
        bit_set(KNIGHTS_START, (63 - s) as u64) == ((s / 8 == 0 || s / 8 == 7) && (s % 8 == 1 || s % 8 == 6)),
        bit_set(BISHOPS_START, (63 - s) as u64) == ((s / 8 == 0 || s / 8 == 7) && (s % 8 == 2 || s % 8 == 5)),
        bit_set(WHITE_START, (63 - s) as u64) == (s / 8 <= 1),
        bit_set(BLACK_START, (63 - s) as u64) == (s / 8 >= 6),
{
    assert(((PAWNS_START >> ((63 - s) as u64)) & 1 == 1) == (s / 8 == 1 || s / 8 == 6)) by (bit_vector)
        requires
            s < 64,
    ;
    assert(((KINGS_START >> ((63 - s) as u64)) & 1 == 1) == ((s / 8 == 0 || s / 8 == 7) && s % 8 == 4))
        by (bit_vector)
        requires
            s < 64,
    ;
    assert(((ROOKS_START >> ((63 - s) as u64)) & 1 == 1) == ((s / 8 == 0 || s / 8 == 7) && (s % 8 == 0 || s
        % 8 == 7))) by (bit_vector)
        requires
            s < 64,
    ;
    assert(((QUEENS_START >> ((63 - s) as u64)) & 1 == 1) == ((s / 8 == 0 || s / 8 == 7) && s % 8 == 3))
        by (bit_vector)
        requires
            s < 64,
    ;
    assert(((KNIGHTS_START >> ((63 - s) as u64)) & 1 == 1) == ((s / 8 == 0 || s / 8 == 7) && (s % 8 == 1
        || s % 8 == 6))) by (bit_vector)
        requires
            s < 64,
    ;
    assert(((BISHOPS_START >> ((63 - s) as u64)) & 1 == 1) == ((s / 8 == 0 || s / 8 == 7) && (s % 8 == 2
        || s % 8 == 5))) by (bit_vector)
        requires
            s < 64,
    ;
    assert(((WHITE_START >> ((63 - s) as u64)) & 1 == 1) == (s / 8 <= 1)) by (bit_vector)
        requires
            s < 64,
    ;
    assert(((BLACK_START >> ((63 - s) as u64)) & 1 == 1) == (s / 8 >= 6)) by (bit_vector)
        requires
            s < 64,
    ;
}

proof fn lemma_bit_or(b: u64, i: u64, j: u64)
    requires
        i < 64,
        j < 64,
    ensures
        bit_set(b | (1u64 << i), j) == (j == i || bit_set(b, j)),
{
    assert(((b | (1u64 << i)) >> j) & 1 == 1 <==> (j == i || (b >> j) & 1 == 1)) by (bit_vector)
        requires
            i < 64,
            j < 64,
    ;
}

proof fn lemma_bit_clear(b: u64, i: u64, j: u64)
    requires
        i < 64,
        j < 64,
    ensures
        bit_set(b & !(1u64 << i), j) == (j != i && bit_set(b, j)),
{
    assert(((b & !(1u64 << i)) >> j) & 1 == 1 <==> (j != i && (b >> j) & 1 == 1)) by (bit_vector)
        requires
            i < 64,
            j < 64,
    ;
}

proof fn lemma_bit_and(a: u64, b: u64, j: u64)
    requires
        j < 64,
    ensures
        bit_set(a & b, j) == (bit_set(a, j) && bit_set(b, j)),
{
    assert(((a & b) >> j) & 1 == 1 <==> ((a >> j) & 1 == 1 && (b >> j) & 1 == 1)) by (bit_vector)
        requires
            j < 64,
    ;
}

/// The squares of `a & b` are those in both.
pub proof fn lemma_and_squares(a: Bitboard, b: Bitboard)
    ensures
        squares_of(a & b) == squares_of(a).intersect(squares_of(b)),
{
    assert forall|s: int| #[trigger] has_square(a & b, s) == (has_square(a, s) && has_square(b, s)) by {
        if 0 <= s < 64 {
            lemma_bit_and(a, b, (63 - s) as u64);
        }
    }
    assert(squares_of(a & b) =~= squares_of(a).intersect(squares_of(b)));
}

proof fn lemma_zero_squares()
    ensures
        squares_of(0) == Set::<int>::empty(),
{
    assert forall|s: int| !#[trigger] has_square(0, s) by {
        if 0 <= s < 64 {
            let j = (63 - s) as u64;
            assert((0u64 >> j) & 1 == 0) by (bit_vector);
        }
    }
    assert(squares_of(0) =~= Set::<int>::empty());
}

/// The frame line drawn above the board.
pub open spec fn frame_text() -> Seq<char> {
    "\n +---+---+---+---+---+---+---+---+\n"@
}

/// What closes a rank: the last bar, then a frame line.
pub open spec fn rank_end_text() -> Seq<char> {
    " |\n +---+---+---+---+---+---+---+---+\n"@
}

/// The first `n` cells of rank `r`, each a bar and the text of its square.
pub open spec fn rank_text(cells: Seq<Seq<char>>, r: int, n: nat) -> Seq<char>
    decreases n,
{
    if n == 0 {
        Seq::empty()
    } else {
        rank_text(cells, r, (n - 1) as nat) + " | "@ + cells[r * 8 + n - 1]
    }
}

/// The top `n` ranks of the board, from rank 8 down.
pub open spec fn ranks_text(cells: Seq<Seq<char>>, n: nat) -> Seq<char>
    decreases n,
{
    if n == 0 {
        Seq::empty()
    } else {
        ranks_text(cells, (n - 1) as nat) + rank_text(cells, 8 - n, 8) + rank_end_text()
    }
}

/// A board drawn as a grid, rank 8 at the top and file A at the left, with
/// `cells[s]` as the text of square `s`.
pub open spec fn board_text(cells: Seq<Seq<char>>) -> Seq<char> {
    frame_text() + ranks_text(cells, 8)
}

/// An `X` on each square of `squares`, a space on every other square.
pub open spec fn marks(squares: Set<int>) -> Seq<Seq<char>> {
    Seq::new(64, |s: int| if squares.contains(s) { "X"@ } else { " "@ })
}

/// Reading, writing and building bitboards.
pub trait Bitboardable {
    /// The squares that the value holds.
    spec fn squares(&self) -> Set<int>;

    /// The board drawn as a grid, with an `X` on each square of the set.
    fn draw(&self) -> (r: String)
        ensures
            r@ == board_text(marks(self.squares())),
    ;

    /// The empty bitboard.
    fn new() -> (r: Bitboard)
        ensures
            squares_of(r) == Set::<int>::empty(),
    ;

    /// The bitboard of the squares listed in `squares`; a square listed twice
    /// counts once.
    fn from_squares(squares: Vec<Square>) -> (r: Bitboard)
        requires
            forall|j: int| 0 <= j < squares.len() ==> squares[j] < 64,
        ensures
            squares_of(r) == listed(squares@),
    ;

    /// Whether square `s` is in the set.
    fn at(&self, s: Square) -> (r: bool)
        requires
            s < 64,
        ensures
            r == self.squares().contains(s as int),
    ;

    /// Puts square `square` in the set when `value` holds, takes it out
    /// otherwise.
    fn set(&mut self, square: u8, value: bool)
        requires
            square < 64,
        ensures
            final(self).squares() == if value {
                old(self).squares().insert(square as int)
            } else {
                old(self).squares().remove(square as int)
            },
    ;

    /// The squares of the pieces of kind `kind`, of both sides, in the
    /// initial position.
    fn initial_from_piece_kind(kind: PieceKind) -> (r: Bitboard)
        ensures
            squares_of(r) == initial_kind_squares(kind),
    ;

    /// The squares of the pieces of side `color` in the initial position.
    fn initial_from_piece_color(color: ColorSide) -> (r: Bitboard)
        ensures
            squares_of(r) == initial_color_squares(color),
    ;
}

impl Bitboardable for Bitboard {
    open spec fn squares(&self) -> Set<int> {
        squares_of(*self)
    }

    fn draw(&self) -> (r: String) {
        let ghost cells = marks(squares_of(*self));
        let mut out = String::new();
        out.append("\n +---+---+---+---+---+---+---+---+\n");
        let mut r: u8 = 8;
        while r > 0
            invariant
                r <= 8,
                cells == marks(squares_of(*self)),
                out@ == frame_text() + ranks_text(cells, (8 - r) as nat),
            decreases r,
        {
            r = r - 1;
            let mut f: u8 = 0;
            while f < 8
                invariant
                    r < 8,
                    f <= 8,
                    cells == marks(squares_of(*self)),
                    out@ == frame_text() + ranks_text(cells, (7 - r) as nat) + rank_text(
                        cells,
                        r as int,
                        f as nat,
                    ),
                decreases 8 - f,
            {
                let ghost before = out@;
                let square: Square = r * 8 + f;
                out.append(" | ");
                if self.at(square) {
                    out.append("X");
                } else {
                    out.append(" ");
                }
                assert(cells[square as int] == if squares_of(*self).contains(square as int) {
                    "X"@
                } else {
                    " "@
                });
                assert(out@ =~= before + " | "@ + cells[r * 8 + f]);
                f = f + 1;
            }
            let ghost before = out@;
            out.append(" |\n +---+---+---+---+---+---+---+---+\n");
            assert(out@ =~= frame_text() + ranks_text(cells, (8 - r) as nat));
        }
        out
    }

    fn new() -> (r: Bitboard) {
        proof {
            lemma_zero_squares();
        }
        0b00000000_00000000_00000000_00000000_00000000_00000000_00000000_00000000
    }

    fn from_squares(squares: Vec<Square>) -> (r: Bitboard) {
        let mut bb = Bitboard::new();
        let mut i: usize = 0;
        while i < squares.len()
            invariant
                i <= squares.len(),
                forall|j: int| 0 <= j < squares.len() ==> squares[j] < 64,
                squares_of(bb) == listed(squares@.subrange(0, i as int)),
            decreases squares.len() - i,
        {
            bb.set(squares[i], true);
            proof {
                let done = squares@.subrange(0, i as int);
                let next = squares@.subrange(0, i + 1);
                assert forall|s: int| #[trigger] listed(next).contains(s) == (listed(done).contains(s)
                    || s == squares[i as int]) by {
                    if listed(done).contains(s) {
                        let j = choose|j: int| 0 <= j < done.len() && done[j] as int == s;
                        assert(next[j] == done[j]);
                    }
                    if s == squares[i as int] {
                        assert(next[i as int] == squares[i as int]);
                    }
                    if listed(next).contains(s) {
                        let j = choose|j: int| 0 <= j < next.len() && next[j] as int == s;
                        if j < i {
                            assert(done[j] == next[j]);
                        }
                    }
                }
                assert(listed(next) =~= listed(done).insert(squares[i as int] as int));
            }
            i = i + 1;
        }
        assert(squares@.subrange(0, squares.len() as int) =~= squares@);
        bb
    }

    fn at(&self, s: Square) -> (r: bool) {
        (*self >> (63 - s)) & 1 == 1
    }

    fn set(&mut self, square: u8, value: bool) {
        let i: u64 = (63 - square) as u64;
        let ghost before = *self;
        if value {
            *self = *self | (1u64 << i);
            proof {
                assert forall|s: int| #[trigger] has_square(*self, s) == (has_square(before, s) || s
                    == square) by {
                    if 0 <= s < 64 {
                        lemma_bit_or(before, i, (63 - s) as u64);
                    }
                }
                assert(squares_of(*self) =~= squares_of(before).insert(square as int));
            }
        } else {
            *self = *self & !(1u64 << i);
            proof {
                assert forall|s: int| #[trigger] has_square(*self, s) == (has_square(before, s) && s
                    != square) by {
                    if 0 <= s < 64 {
                        lemma_bit_clear(before, i, (63 - s) as u64);
                    }
                }
                assert(squares_of(*self) =~= squares_of(before).remove(square as int));
            }
        }
    }

    fn initial_from_piece_kind(kind: PieceKind) -> (r: Bitboard) {
        let r: Bitboard = match kind {
            PAWN => PAWNS_START,
            KING => KINGS_START,
            ROOK => ROOKS_START,
            QUEEN => QUEENS_START,
            KNIGHT => KNIGHTS_START,
            BISHOP => BISHOPS_START,
            _ => 0,
        };
        proof {
            lemma_zero_squares();
            assert forall|s: int| #[trigger] has_square(r, s) == initial_kind_squares(kind).contains(
                s,
            ) by {
                if 0 <= s < 64 {
                    lemma_start_bits(s as u64);
                    assert(rank_of(s) == (s as u64) / 8 && file_of(s) == (s as u64) % 8);
                    assert(has_square(r, s) == bit_set(r, (63 - s) as u64));
                } else {
                    assert(!has_square(r, s));
                }
                if r == 0 {
                    assert(!squares_of(0).contains(s));
                }
            }
            assert(squares_of(r) =~= initial_kind_squares(kind));
        }
        r
    }

    fn initial_from_piece_color(color: ColorSide) -> (r: Bitboard) {
        let r: Bitboard = if color == WHITE {
            WHITE_START
        } else if color == BLACK {
            BLACK_START
        } else {
            0
        };
        proof {
            lemma_zero_squares();
            assert forall|s: int| #[trigger] has_square(r, s) == initial_color_squares(
                color,
            ).contains(s) by {
                if 0 <= s < 64 {
                    lemma_start_bits(s as u64);
                    assert(rank_of(s) == (s as u64) / 8);
                }
                if r == 0 {
                    assert(!squares_of(0).contains(s));
                }
            }
            assert(squares_of(r) =~= initial_color_squares(color));
        }
        r
    }
}

} // verus!
