//! Piece kinds and piece codes.

pub mod piece_attacks;

use vstd::prelude::*;
use crate::color_side::{ColorSide, WHITE, BLACK, is_side};

verus! {

/// The kind of a piece: `PAWN` to `BISHOP`, in the order of a position's
/// bitboards.
pub type PieceKind = u8;

/// A piece code: the colour bit (`WHITE` or `BLACK`) or-ed with the kind.
pub type Piece = u8;

pub const PAWN: PieceKind = 0b0000;

pub const KING: PieceKind = 0b0001;

pub const ROOK: PieceKind = 0b0010;

pub const QUEEN: PieceKind = 0b0011;

pub const KNIGHT: PieceKind = 0b0100;

pub const BISHOP: PieceKind = 0b0101;

/// Whether `k` is one of the six piece kinds.
pub open spec fn is_kind(k: PieceKind) -> bool {
    k <= BISHOP
}

/// The side of a piece code: its bit of value 8.
pub open spec fn color_of(p: Piece) -> ColorSide {
    if (p / 8) % 2 == 1 {
        WHITE
    } else {
        BLACK
    }
}

/// The kind of a piece code: its three low bits.
pub open spec fn kind_of(p: Piece) -> PieceKind {
    (p % 8) as u8
}

/// The code of a piece of kind `k` and side `c`.
pub open spec fn piece_code(k: PieceKind, c: ColorSide) -> Piece {
    (k + c) as u8
}

/// The chess symbol of a piece: filled for white, outlined for black, a space
/// for a code with no kind.
pub open spec fn symbol(p: Piece) -> char {
    let k = kind_of(p);
    if color_of(p) == WHITE {
        if k == KING {
            '♚'
        } else if k == QUEEN {
            '♛'
        } else if k == ROOK {
            '♜'
        } else if k == BISHOP {
            '♝'
        } else if k == KNIGHT {
            '♞'
        } else if k == PAWN {
            '♟'
        } else {
            ' '
        }
    } else {
        if k == KING {
            '♔'
        } else if k == QUEEN {
            '♕'
        } else if k == ROOK {
            '♖'
        } else if k == BISHOP {
            '♗'
        } else if k == KNIGHT {
            '♘'
        } else if k == PAWN {
            '♙'
        } else {
            ' '
        }
    }
}

proof fn lemma_code_bits(p: u8)
    ensures
        p & 0b1000 == (if (p / 8) % 2 == 1 { 8u8 } else { 0u8 }),
        p & 0b0111 == p % 8,
{
    assert(p & 0b1000 == (if (p / 8) % 2 == 1 { 8u8 } else { 0u8 })) by (bit_vector);
    assert(p & 0b0111 == p % 8) by (bit_vector);
}

proof fn lemma_code_or(k: u8, c: u8)
    requires
        k < 8,
        c == 0 || c == 8,
    ensures
        c | k == k + c,
{
    assert(c | k == k + c) by (bit_vector)
        requires
            k < 8,
            c == 0 || c == 8,
    ;
}

/// Building a piece code and reading its parts.
pub trait Pieceable {
    /// The code of a piece of kind `kind` and side `color`.
    fn new(kind: PieceKind, color: ColorSide) -> (r: Piece)
        requires
            is_kind(kind),
            is_side(color),
        ensures
            r == piece_code(kind, color),
            kind_of(r) == kind,
            color_of(r) == color,
    ;

    /// The chess symbol of the piece.
    fn to_char(&self) -> char;

    /// The side of the piece.
    fn color(&self) -> ColorSide;

    /// The kind of the piece.
    fn kind(&self) -> PieceKind;
}

impl Pieceable for Piece {
    fn new(kind: PieceKind, color: ColorSide) -> (r: Piece) {
        proof {
            lemma_code_or(kind, color);
        }
        color | kind
    }

    fn color(&self) -> (r: ColorSide)
        ensures
            r == color_of(*self),
    {
        proof {
            lemma_code_bits(*self);
        }
        *self & 0b1000
    }

    fn kind(&self) -> (r: PieceKind)
        ensures
            r == kind_of(*self),
    {
        proof {
            lemma_code_bits(*self);
        }
        *self & 0b0111
    }

    fn to_char(&self) -> (r: char)
        ensures
            r == symbol(*self),
    {
        if self.color() == WHITE {
            match self.kind() {
                KING => '♚',
                QUEEN => '♛',
                ROOK => '♜',
                BISHOP => '♝',
                KNIGHT => '♞',
                PAWN => '♟',
                _ => ' ',
            }
        } else {
            match self.kind() {
                KING => '♔',
                QUEEN => '♕',
                ROOK => '♖',
                BISHOP => '♗',
                KNIGHT => '♘',
                PAWN => '♙',
                _ => ' ',
            }
        }
    }
}

} // verus!
