//! A game: a position and a move count, and its drawing as text.

use vstd::prelude::*;
use vstd::string::StringExecFns;
use crate::bitboard::{board_text, frame_text, rank_text, ranks_text};
use crate::color_side::{ColorSide, WHITE, BLACK};
use crate::piece::{Pieceable, symbol};
use crate::position::{Position, Positionable, is_initial, occupant};
use crate::square::Square;

verus! {

/// A position and the number of moves played so far.
pub struct Game {
    pub position: Position,
    pub played_moves: usize,
}

/// The side to move after `played_moves` moves: white after an even number.
pub open spec fn side_to_move(played_moves: int) -> ColorSide {
    if played_moves % 2 == 0 {
        WHITE
    } else {
        BLACK
    }
}

/// The decimal digit `d`.
pub open spec fn digit_text(d: int) -> Seq<char> {
    if d == 0 {
        "0"@
    } else if d == 1 {
        "1"@
    } else if d == 2 {
        "2"@
    } else if d == 3 {
        "3"@
    } else if d == 4 {
        "4"@
    } else if d == 5 {
        "5"@
    } else if d == 6 {
        "6"@
    } else if d == 7 {
        "7"@
    } else if d == 8 {
        "8"@
    } else {
        "9"@
    }
}

/// `n` written in decimal, without leading zeros.
pub open spec fn decimal(n: nat) -> Seq<char>
    decreases n,
{
    if n < 10 {
        digit_text(n as int)
    } else {
        decimal(n / 10) + digit_text((n % 10) as int)
    }
}

/// The symbol of the piece on each square, a space on a vacant one.
pub open spec fn piece_cells(p: Position) -> Seq<Seq<char>> {
    Seq::new(
        64,
        |s: int|
            match occupant(p, s) {
                Some(pc) => seq![symbol(pc)],
                None => " "@,
            },
    )
}

/// A game drawn as its board, then the number of moves played.
pub open spec fn game_text(g: Game) -> Seq<char> {
    board_text(piece_cells(g.position)) + " "@ + decimal(g.played_moves as nat)
        + " Moves played"@
}

/// Relies on `String::push`, which appends one character to the string.
#[verifier::external_body]
fn push_char(s: &mut String, c: char)
    ensures
        final(s)@ == old(s)@.push(c),
{
    s.push(c);
}

fn append_decimal(out: &mut String, n: usize)
    ensures
        final(out)@ == old(out)@ + decimal(n as nat),
    decreases n,
{
    let ghost start = out@;
    if n >= 10 {
        append_decimal(out, n / 10);
    }
    let ghost before = out@;
    match n % 10 {
        0 => out.append("0"),
        1 => out.append("1"),
        2 => out.append("2"),
        3 => out.append("3"),
        4 => out.append("4"),
        5 => out.append("5"),
        6 => out.append("6"),
        7 => out.append("7"),
        8 => out.append("8"),
        _ => out.append("9"),
    }
    assert(out@ =~= start + decimal(n as nat));
}

impl Game {
    /// A game at the start: the initial position, no move played.
    pub fn default() -> (r: Game)
        ensures
            is_initial(r.position),
            r.played_moves == 0,
    {
        Game { position: Position::initial(), played_moves: 0 }
    }

    /// The board as a grid of piece symbols, rank 8 at the top, followed by
    /// the number of moves played.
    pub fn to_string(&self) -> (r: String)
        ensures
            r@ == game_text(*self),
    {
        let ghost cells = piece_cells(self.position);
        let mut out = String::new();
        out.append("\n +---+---+---+---+---+---+---+---+\n");
        let mut r: u8 = 8;
        while r > 0
            invariant
                r <= 8,
                cells == piece_cells(self.position),
                out@ == frame_text() + ranks_text(cells, (8 - r) as nat),
            decreases r,
        {
            r = r - 1;
            let mut f: u8 = 0;
            while f < 8
                invariant
                    r < 8,
                    f <= 8,
                    cells == piece_cells(self.position),
                    out@ == frame_text() + ranks_text(cells, (7 - r) as nat) + rank_text(
                        cells,
                        r as int,
                        f as nat,
                    ),
                decreases 8 - f,
            {
                let ghost before = out@;
                let square: Square = r * 8 + f;
                out.append(" | ");
                match self.position.from_square(square) {
                    Some(piece) => push_char(&mut out, piece.to_char()),
                    None => out.append(" "),
                }
                assert(cells[square as int] == match occupant(self.position, square as int) {
                    Some(pc) => seq![symbol(pc)],
                    None => " "@,
                });
                assert(out@ =~= before + " | "@ + cells[r * 8 + f]);
                f = f + 1;
            }
            out.append(" |\n +---+---+---+---+---+---+---+---+\n");
            assert(out@ =~= frame_text() + ranks_text(cells, (8 - r) as nat));
        }
        out.append(" ");
        append_decimal(&mut out, self.played_moves);
        out.append(" Moves played");
        out
    }
}

} // verus!
