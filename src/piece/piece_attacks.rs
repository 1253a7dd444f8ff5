//! The attack generator: the squares that a piece on a square attacks.

use vstd::prelude::*;
use crate::attacks::{attack_set, leap, leaps, ray, rays, edge_distance};
use crate::bitboard::{Bitboard, Bitboardable, squares_of};
use crate::color_side::{ColorSide, WHITE, BLACK};
use crate::dir::{Dir, king_dirs, rook_dirs, bishop_dirs, queen_dirs, knight_dirs, pawn_dirs};
use crate::game::{Game, side_to_move};
use crate::piece::{PieceKind, Pieceable, PAWN, KING, ROOK, QUEEN, KNIGHT, BISHOP};
use crate::position::{Position, Positionable};
use crate::square::{Square, Squarable};

verus! {

/// The squares that a piece of kind `piece_kind` on `square` attacks in
/// `game`, for the side to move. For every piece but the pawn these are also
/// the squares it can move to, before any question of check.
pub fn piece_attacks(piece_kind: PieceKind, game: Game, square: Square) -> (r: Bitboard)
    requires
        square < 64,
    ensures
        squares_of(r) == attack_set(
            piece_kind,
            game.position,
            square as int,
            side_to_move(game.played_moves as int),
        ),
{
    let side = if game.played_moves % 2 == 0 {
        WHITE
    } else {
        BLACK
    };
    attacks(piece_kind, &game.position, square, side)
}

/// The squares that a piece of kind `piece_kind` and side `side` on `square`
/// attacks in the position `p`; the empty set for a code that is no kind.
pub fn attacks(piece_kind: PieceKind, p: &Position, square: Square, side: ColorSide) -> (r:
    Bitboard)
    requires
        square < 64,
    ensures
        squares_of(r) == attack_set(piece_kind, *p, square as int, side),
{
    match piece_kind {
        KING => {
            let dirs = vec![
                Dir::Up,
                Dir::Right,
                Dir::Down,
                Dir::Left,
                Dir::UpLeft,
                Dir::UpRight,
                Dir::DownLeft,
                Dir::DownRight,
            ];
            assert(dirs@ == king_dirs());
            neighborhood_attacks(p, square, side, dirs)
        },
        ROOK => {
            let dirs = vec![Dir::Up, Dir::Right, Dir::Down, Dir::Left];
            assert(dirs@ == rook_dirs());
            slider_attacks(p, square, side, dirs)
        },
        QUEEN => {
            let dirs = vec![
                Dir::Up,
                Dir::Right,
                Dir::Down,
                Dir::Left,
                Dir::UpLeft,
                Dir::UpRight,
                Dir::DownRight,
                Dir::DownLeft,
            ];
            assert(dirs@ =~= queen_dirs());
            slider_attacks(p, square, side, dirs)
        },
        BISHOP => {
            let dirs = vec![Dir::UpLeft, Dir::UpRight, Dir::DownRight, Dir::DownLeft];
            assert(dirs@ == bishop_dirs());
            slider_attacks(p, square, side, dirs)
        },
        KNIGHT => knight_attacks(p, square, side),
        PAWN => pawn_attacks(p, square, side),
        _ => Bitboard::new(),
    }
}

fn knight_attacks(p: &Position, s: Square, side: ColorSide) -> (r: Bitboard)
    requires
        s < 64,
    ensures
        squares_of(r) == leaps(*p, s as int, side, knight_dirs()),
{
    let dirs = vec![
        Dir::HorseUpLeft,
        Dir::HorseUpRight,
        Dir::HorseDownRight,
        Dir::HorseDownLeft,
        Dir::HorseLeftDown,
        Dir::HorseLeftUp,
        Dir::HorseRightDown,
        Dir::HorseRightUp,
    ];
    assert(dirs@ == knight_dirs());
    neighborhood_attacks(p, s, side, dirs)
}

fn pawn_attacks(p: &Position, s: Square, side: ColorSide) -> (r: Bitboard)
    requires
        s < 64,
    ensures
        squares_of(r) == leaps(*p, s as int, side, pawn_dirs(side)),
{
    if side == WHITE {
        let dirs = vec![Dir::UpLeft, Dir::UpRight];
        assert(dirs@ == pawn_dirs(side));
        neighborhood_attacks(p, s, side, dirs)
    } else {
        let dirs = vec![Dir::DownLeft, Dir::DownRight];
        assert(dirs@ == pawn_dirs(side));
        neighborhood_attacks(p, s, side, dirs)
    }
}

/// Casts a ray from `s` along each of `dirs`.
fn slider_attacks(p: &Position, s: Square, side: ColorSide, dirs: Vec<Dir>) -> (r: Bitboard)
    requires
        s < 64,
    ensures
        squares_of(r) == rays(*p, s as int, side, dirs@),
{
    let mut legal_squares = Bitboard::new();
    let mut i: usize = 0;
    while i < dirs.len()
        invariant
            s < 64,
            i <= dirs.len(),
            squares_of(legal_squares) == rays(*p, s as int, side, dirs@.subrange(0, i as int)),
        decreases dirs.len() - i,
    {
        let dir = dirs[i];
        let ghost before = squares_of(legal_squares);
        let mut square: Square = s;
        loop
            invariant_except_break
                square < 64,
                squares_of(legal_squares).union(ray(*p, square as int, side, dir)) == before.union(
                    ray(*p, s as int, side, dir),
                ),
            ensures
                squares_of(legal_squares) == before.union(ray(*p, s as int, side, dir)),
            decreases edge_distance(square as int, dir),
        {
            match square.get(&dir) {
                Some(target) => {
                    match p.from_square(target) {
                        None => {
                            legal_squares.set(target, true);
                            assert(ray(*p, square as int, side, dir) == ray(
                                *p,
                                target as int,
                                side,
                                dir,
                            ).insert(target as int));
                            assert(squares_of(legal_squares).union(
                                ray(*p, target as int, side, dir),
                            ) =~= before.union(ray(*p, s as int, side, dir)));
                            square = target;
                        },
                        Some(piece) => {
                            if piece.color() != side {
                                legal_squares.set(target, true);
                            }
                            assert(squares_of(legal_squares) =~= before.union(
                                ray(*p, s as int, side, dir),
                            ));
                            break ;
                        },
                    }
                },
                None => {
                    assert(squares_of(legal_squares) =~= before.union(
                        ray(*p, s as int, side, dir),
                    ));
                    break ;
                },
            }
        }
        assert(dirs@.subrange(0, i + 1).drop_last() =~= dirs@.subrange(0, i as int));
        i = i + 1;
    }
    assert(dirs@.subrange(0, dirs.len() as int) =~= dirs@);
    legal_squares
}

/// Takes one step from `s` in each of `dirs`.
fn neighborhood_attacks(p: &Position, s: Square, side: ColorSide, dirs: Vec<Dir>) -> (r: Bitboard)
    requires
        s < 64,
    ensures
        squares_of(r) == leaps(*p, s as int, side, dirs@),
{
    let mut legal_squares = Bitboard::new();
    let mut i: usize = 0;
    while i < dirs.len()
        invariant
            s < 64,
            i <= dirs.len(),
            squares_of(legal_squares) == leaps(*p, s as int, side, dirs@.subrange(0, i as int)),
        decreases dirs.len() - i,
    {
        let dir = dirs[i];
        let ghost before = squares_of(legal_squares);
        match s.get(&dir) {
            Some(target) => {
                match p.from_square(target) {
                    None => legal_squares.set(target, true),
                    Some(piece) => {
                        if piece.color() != side {
                            legal_squares.set(target, true);
                        }
                    },
                }
            },
            None => {},
        }
        assert(squares_of(legal_squares) =~= before.union(leap(*p, s as int, side, dir)));
        assert(dirs@.subrange(0, i + 1).drop_last() =~= dirs@.subrange(0, i as int));
        i = i + 1;
    }
    assert(dirs@.subrange(0, dirs.len() as int) =~= dirs@);
    legal_squares
}

} // verus!
