//! A position as eight bitboards, and what stands on each square.

use vstd::prelude::*;
use crate::bitboard::{
    Bitboard, Bitboardable, has_square, squares_of, initial_kind_squares, initial_color_squares,
    lemma_and_squares,
};
use crate::color_side::{ColorSide, WHITE, BLACK};
use crate::piece::{
    Piece, PieceKind, Pieceable, PAWN, KING, ROOK, QUEEN, KNIGHT, BISHOP, is_kind, kind_of,
    color_of, piece_code,
};
use crate::square::Square;

verus! {

/// Eight bitboards: those of the six piece kinds, in the order `PAWN` to
/// `BISHOP` (indices 0 to 5), then those of the white (6) and the black (7)
/// pieces.
pub type Position = [Bitboard; 8];

/// The bitboard of the pieces of side `c`.
pub open spec fn color_board(p: Position, c: ColorSide) -> Bitboard {
    if c == WHITE {
        p[6]
    } else {
        p[7]
    }
}

/// The first kind, from kind `k` on in the order `PAWN` to `BISHOP`, whose
/// bitboard holds square `s`.
pub open spec fn first_kind_from(p: Position, s: int, k: int) -> Option<PieceKind>
    decreases 6 - k,
{
    if 0 <= k < 6 {
        if has_square(p[k], s) {
            Some(k as u8)
        } else {
            first_kind_from(p, s, k + 1)
        }
    } else {
        None
    }
}

/// The piece on square `s`: the first kind whose bitboard holds `s`, white
/// where the white bitboard holds `s` and black otherwise; `None` where no
/// kind's bitboard holds `s`.
pub open spec fn occupant(p: Position, s: int) -> Option<Piece> {
    match first_kind_from(p, s, 0) {
        Some(k) => Some(piece_code(k, if has_square(p[6], s) { WHITE } else { BLACK })),
        None => None,
    }
}

/// The eight bitboards agree on square `s`: either none of them holds it, or
/// exactly one kind's bitboard and exactly one side's bitboard do.
pub open spec fn square_consistent(p: Position, s: int) -> bool {
    match first_kind_from(p, s, 0) {
        Some(k) => {
            &&& forall|j: int| k < j < 6 ==> !has_square(#[trigger] p[j], s)
            &&& has_square(p[6], s) != has_square(p[7], s)
        },
        None => !has_square(p[6], s) && !has_square(p[7], s),
    }
}

/// A position whose bitboards agree on every square.
pub open spec fn well_formed(p: Position) -> bool {
    forall|s: int| 0 <= s < 64 ==> #[trigger] square_consistent(p, s)
}

/// The position at the start of a game.
pub open spec fn is_initial(p: Position) -> bool {
    &&& forall|k: int| 0 <= k < 6 ==> squares_of(#[trigger] p[k]) == initial_kind_squares(k as u8)
    &&& squares_of(p[6]) == initial_color_squares(WHITE)
    &&& squares_of(p[7]) == initial_color_squares(BLACK)
}

/// Reading a position by kind, by side and by square.
pub trait Positionable {
    /// The position at the start of a game.
    fn initial() -> (r: Position)
        ensures
            is_initial(r),
    ;

    /// The bitboard of the pieces of side `color`.
    fn from_piece_color(&self, color: ColorSide) -> Bitboard;

    /// The bitboard of the pieces of kind `kind`, of both sides.
    fn from_piece_kind(&self, kind: PieceKind) -> Bitboard
        requires
            is_kind(kind),
    ;

    /// The bitboard of the pieces of kind and side `piece`.
    fn from_piece(&self, piece: Piece) -> Bitboard
        requires
            is_kind(kind_of(piece)),
    ;

    /// The piece on square `square`, if any.
    fn from_square(&self, square: Square) -> Option<Piece>
        requires
            square < 64,
    ;
}

impl Positionable for Position {
    fn initial() -> (r: Position) {
        [
            Bitboard::initial_from_piece_kind(PAWN),
            Bitboard::initial_from_piece_kind(KING),
            Bitboard::initial_from_piece_kind(ROOK),
            Bitboard::initial_from_piece_kind(QUEEN),
            Bitboard::initial_from_piece_kind(KNIGHT),
            Bitboard::initial_from_piece_kind(BISHOP),
            Bitboard::initial_from_piece_color(WHITE),
            Bitboard::initial_from_piece_color(BLACK),
        ]
    }

    fn from_piece_color(&self, color: ColorSide) -> (r: Bitboard)
        ensures
            r == color_board(*self, color),
    {
        if color == WHITE {
            self[6]
        } else {
            self[7]
        }
    }

    fn from_piece_kind(&self, kind: PieceKind) -> (r: Bitboard)
        ensures
            r == self[kind as int],
    {
        self[kind as usize]
    }

    fn from_piece(&self, piece: Piece) -> (r: Bitboard)
        ensures
            squares_of(r) == squares_of(color_board(*self, color_of(piece))).intersect(
                squares_of(self[kind_of(piece) as int]),
            ),
    {
        let c = self.from_piece_color(piece.color());
        let k = self.from_piece_kind(piece.kind());
        proof {
            lemma_and_squares(c, k);
        }
        c & k
    }

    fn from_square(&self, square: Square) -> (r: Option<Piece>)
        ensures
            r == occupant(*self, square as int),
    {
        let mut kind: PieceKind = 0;
        while kind < 6 && !self.from_piece_kind(kind).at(square)
            invariant
                kind <= 6,
                square < 64,
                first_kind_from(*self, square as int, 0) == first_kind_from(
                    *self,
                    square as int,
                    kind as int,
                ),
            decreases 6 - kind,
        {
            kind = kind + 1;
        }
        if kind == 6 {
            None
        } else if self.from_piece_color(WHITE).at(square) {
            Some(Piece::new(kind, WHITE))
        } else {
            Some(Piece::new(kind, BLACK))
        }
    }
}

} // verus!
