//! What a piece attacks, stated over sets of squares: a leaper's single
//! steps and a slider's rays, with the laws they obey.

use vstd::prelude::*;
use crate::bitboard::{has_square, squares_of};
use crate::color_side::{ColorSide, WHITE, is_side};
use crate::dir::{
    Dir, file_delta, rank_delta, is_leap, king_dirs, rook_dirs, bishop_dirs, queen_dirs,
    knight_dirs, pawn_dirs,
};
use crate::piece::{PieceKind, PAWN, KING, ROOK, QUEEN, KNIGHT, BISHOP, color_of, is_kind, piece_code};
use crate::position::{Position, occupant, first_kind_from, well_formed, square_consistent};
use crate::square::{step, file_of, rank_of};

verus! {

/// Square `t` holds a piece of side `side`.
pub open spec fn is_own(p: Position, t: int, side: u8) -> bool {
    match occupant(p, t) {
        Some(pc) => color_of(pc) == side,
        None => false,
    }
}

/// Square `t` holds no piece.
pub open spec fn is_vacant(p: Position, t: int) -> bool {
    occupant(p, t) is None
}

/// The square that a leaper of side `side` on `s` attacks with a step in `d`:
/// the square one step away, unless that step leaves the board or the square
/// holds a piece of the same side.
pub open spec fn leap(p: Position, s: int, side: u8, d: Dir) -> Set<int> {
    match step(s, d) {
        Some(t) => if is_own(p, t, side) {
            Set::empty()
        } else {
            set![t]
        },
        None => Set::empty(),
    }
}

/// What every step in `d` brings down: the number of ranks between `s` and
/// the edge rank that `d` heads for, or for a move along the rank, the number
/// of files to the edge file.
pub open spec fn edge_distance(s: int, d: Dir) -> int {
    if rank_delta(d) > 0 {
        7 - rank_of(s)
    } else if rank_delta(d) < 0 {
        rank_of(s)
    } else if file_delta(d) > 0 {
        7 - file_of(s)
    } else {
        file_of(s)
    }
}

/// The squares that a slider of side `side` on `s` attacks along `d`: each
/// vacant square in turn, then the first occupied one if it holds a piece of
/// the other side; the ray ends there, or at the edge of the board.
pub open spec fn ray(p: Position, s: int, side: u8, d: Dir) -> Set<int>
    decreases edge_distance(s, d),
{
    match step(s, d) {
        Some(t) => if is_vacant(p, t) {
            ray(p, t, side, d).insert(t)
        } else if is_own(p, t, side) {
            Set::empty()
        } else {
            set![t]
        },
        None => Set::empty(),
    }
}

/// The union of `leap` over `dirs`.
pub open spec fn leaps(p: Position, s: int, side: u8, dirs: Seq<Dir>) -> Set<int>
    decreases dirs.len(),
{
    if dirs.len() == 0 {
        Set::empty()
    } else {
        leaps(p, s, side, dirs.drop_last()).union(leap(p, s, side, dirs.last()))
    }
}

/// The union of `ray` over `dirs`.
pub open spec fn rays(p: Position, s: int, side: u8, dirs: Seq<Dir>) -> Set<int>
    decreases dirs.len(),
{
    if dirs.len() == 0 {
        Set::empty()
    } else {
        rays(p, s, side, dirs.drop_last()).union(ray(p, s, side, dirs.last()))
    }
}

/// The squares that a piece of kind `kind` and side `side` on `s` attacks;
/// none for a code that is no kind.
pub open spec fn attack_set(kind: PieceKind, p: Position, s: int, side: u8) -> Set<int> {
    if kind == KING {
        leaps(p, s, side, king_dirs())
    } else if kind == KNIGHT {
        leaps(p, s, side, knight_dirs())
    } else if kind == PAWN {
        leaps(p, s, side, pawn_dirs(side))
    } else if kind == ROOK {
        rays(p, s, side, rook_dirs())
    } else if kind == BISHOP {
        rays(p, s, side, bishop_dirs())
    } else if kind == QUEEN {
        rays(p, s, side, queen_dirs())
    } else {
        Set::empty()
    }
}

/// Every square of the board is vacant.
pub open spec fn empty_board(p: Position) -> bool {
    forall|t: int| #[trigger] is_vacant(p, t)
}

/// How far square numbers move with one step in `d`.
pub open spec fn offset(d: Dir) -> int {
    8 * rank_delta(d) + file_delta(d)
}

/// The square `k` steps in `d` from `s`, counted on square numbers.
pub open spec fn along(s: int, d: Dir, k: int) -> int {
    s + k * offset(d)
}

/// How many steps in the king direction `d` fit between `s` and the edge of
/// the board.
pub open spec fn room(s: int, d: Dir) -> int {
    let up = 7 - rank_of(s);
    let down = rank_of(s);
    let left = file_of(s);
    let right = 7 - file_of(s);
    match d {
        Dir::Up => up,
        Dir::Down => down,
        Dir::Left => left,
        Dir::Right => right,
        Dir::UpLeft => if left < up {
            left
        } else {
            up
        },
        Dir::UpRight => if right < up {
            right
        } else {
            up
        },
        Dir::DownLeft => if left < down {
            left
        } else {
            down
        },
        Dir::DownRight => if right < down {
            right
        } else {
            down
        },
        _ => 0,
    }
}

/// The index of the bitboard of side `c` in a position.
pub open spec fn side_index(c: ColorSide) -> int {
    if c == WHITE {
        6
    } else {
        7
    }
}

/// `q` is `p` with a piece of kind `k` and side `c` put on square `b`: `b`
/// joins the bitboard of kind `k` and that of side `c`, and nothing else
/// changes.
pub open spec fn places(p: Position, q: Position, b: int, k: PieceKind, c: ColorSide) -> bool {
    forall|j: int|
        0 <= j < 8 ==> squares_of(#[trigger] q[j]) == if j == k || j == side_index(c) {
            squares_of(p[j]).insert(b)
        } else {
            squares_of(p[j])
        }
}

/// The squares of a ray lie strictly nearer the edge than its start, and
/// there are finitely many.
pub proof fn lemma_ray_ahead(p: Position, s: int, side: u8, d: Dir)
    ensures
        ray(p, s, side, d).finite(),
        forall|u: int| #[trigger]
            ray(p, s, side, d).contains(u) ==> edge_distance(u, d) < edge_distance(s, d),
    decreases edge_distance(s, d),
{
    if let Some(t) = step(s, d) {
        lemma_ray_ahead(p, t, side, d);
    }
}

/// On an empty board a slider's ray in each of its directions runs to the
/// edge: it holds the squares `along(s, d, k)` for `k` from 1 to the room
/// left in that direction, and no other.
pub proof fn lemma_empty_board_ray(p: Position, s: int, side: u8, d: Dir)
    requires
        empty_board(p),
        0 <= s < 64,
        !is_leap(d),
    ensures
        ray(p, s, side, d) == Set::new(
            |t: int| exists|k: int| 1 <= k <= room(s, d) && t == #[trigger] along(s, d, k),
        ),
        ray(p, s, side, d).len() == room(s, d),
    decreases edge_distance(s, d),
{
    let line = Set::new(
        |t: int| exists|k: int| 1 <= k <= room(s, d) && t == #[trigger] along(s, d, k),
    );
    match step(s, d) {
        Some(t) => {
            assert(t == s + offset(d));
            assert(room(t, d) == room(s, d) - 1);
            lemma_empty_board_ray(p, t, side, d);
            lemma_ray_ahead(p, t, side, d);
            let rest = Set::new(
                |u: int| exists|k: int| 1 <= k <= room(t, d) && u == #[trigger] along(t, d, k),
            );
            assert forall|u: int| #[trigger] line.contains(u) == rest.insert(t).contains(u) by {
                if line.contains(u) {
                    let k = choose|k: int| 1 <= k <= room(s, d) && u == #[trigger] along(s, d, k);
                    if k > 1 {
                        let o = offset(d);
                        assert(s + k * o == t + (k - 1) * o) by (nonlinear_arith)
                            requires
                                t == s + o,
                        ;
                        assert(u == along(t, d, k - 1));
                        assert(rest.contains(u));
                    } else {
                        assert(k == 1);
                        assert(1 * offset(d) == offset(d));
                        assert(u == t);
                    }
                }
                if rest.contains(u) {
                    let k = choose|k: int| 1 <= k <= room(t, d) && u == #[trigger] along(t, d, k);
                    let o = offset(d);
                    assert(t + k * o == s + (k + 1) * o) by (nonlinear_arith)
                        requires
                            t == s + o,
                    ;
                    assert(u == along(s, d, k + 1));
                    assert(line.contains(u));
                }
                if u == t {
                    assert(t == along(s, d, 1));
                    assert(line.contains(u));
                }
            }
            assert(line =~= rest.insert(t));
            assert(!ray(p, t, side, d).contains(t));
        },
        None => {
            assert(room(s, d) == 0);
            assert(line =~= Set::<int>::empty());
        },
    }
}

proof fn lemma_first_kind_absent(p: Position, s: int, k: int)
    requires
        0 <= k <= 6,
        first_kind_from(p, s, k) is None,
    ensures
        forall|j: int| k <= j < 6 ==> !has_square(#[trigger] p[j], s),
    decreases 6 - k,
{
    if k < 6 {
        lemma_first_kind_absent(p, s, k + 1);
    }
}

proof fn lemma_first_kind_agree(p: Position, q: Position, s: int, k: int)
    requires
        0 <= k <= 6,
        forall|j: int| 0 <= j < 6 ==> has_square(#[trigger] q[j], s) == has_square(p[j], s),
    ensures
        first_kind_from(q, s, k) == first_kind_from(p, s, k),
    decreases 6 - k,
{
    if k < 6 {
        lemma_first_kind_agree(p, q, s, k + 1);
    }
}

proof fn lemma_first_kind_only(q: Position, s: int, k: int, j: int)
    requires
        0 <= j <= k < 6,
        has_square(q[k], s),
        forall|i: int| 0 <= i < 6 && i != k ==> !has_square(#[trigger] q[i], s),
    ensures
        first_kind_from(q, s, j) == Some(k as u8),
    decreases 6 - j,
{
    if j < k {
        lemma_first_kind_only(q, s, k, j + 1);
    }
}

/// Putting a piece on a vacant square `b` of a well-formed position puts that
/// piece on `b` and leaves every other square as it was.
proof fn lemma_places_occupant(p: Position, q: Position, b: int, k: PieceKind, c: ColorSide)
    requires
        well_formed(p),
        0 <= b < 64,
        is_kind(k),
        is_side(c),
        is_vacant(p, b),
        places(p, q, b, k, c),
    ensures
        occupant(q, b) == Some(piece_code(k, c)),
        color_of(piece_code(k, c)) == c,
        forall|t: int| t != b ==> #[trigger] occupant(q, t) == occupant(p, t),
{
    assert forall|t: int| t != b implies #[trigger] occupant(q, t) == occupant(p, t) by {
        assert forall|j: int| 0 <= j < 8 implies has_square(#[trigger] q[j], t) == has_square(
            p[j],
            t,
        ) by {
            assert(squares_of(q[j]).contains(t) == squares_of(p[j]).contains(t));
        }
        lemma_first_kind_agree(p, q, t, 0);
    }
    lemma_first_kind_absent(p, b, 0);
    assert(square_consistent(p, b));
    assert forall|j: int| 0 <= j < 8 implies has_square(#[trigger] q[j], b) == (j == k || j
        == side_index(c) || has_square(p[j], b)) by {
        assert(squares_of(q[j]).contains(b) == has_square(q[j], b));
    }
    lemma_first_kind_only(q, b, k as int, 0);
}

/// A piece put on a square `b` that a ray reaches, vacant until then, cuts
/// the ray: the squares beyond `b` drop out, and `b` itself stays only when
/// the piece belongs to the other side.
pub proof fn lemma_blocked_ray(
    p: Position,
    q: Position,
    s: int,
    side: u8,
    d: Dir,
    b: int,
    k: PieceKind,
    c: ColorSide,
)
    requires
        well_formed(p),
        0 <= b < 64,
        is_kind(k),
        is_side(c),
        is_vacant(p, b),
        ray(p, s, side, d).contains(b),
        places(p, q, b, k, c),
    ensures
        c == side ==> ray(q, s, side, d) == ray(p, s, side, d).difference(
            ray(p, b, side, d),
        ).remove(b),
        c != side ==> ray(q, s, side, d) == ray(p, s, side, d).difference(ray(p, b, side, d)),
    decreases edge_distance(s, d),
{
    lemma_places_occupant(p, q, b, k, c);
    lemma_ray_ahead(p, b, side, d);
    let t = step(s, d)->0;
    if t == b {
        assert(ray(p, s, side, d) == ray(p, b, side, d).insert(b));
        assert(!ray(p, b, side, d).contains(b));
        assert(ray(p, s, side, d).difference(ray(p, b, side, d)) =~= set![b]);
    } else {
        assert(is_vacant(p, t));
        assert(occupant(q, t) == occupant(p, t));
        lemma_blocked_ray(p, q, t, side, d, b, k, c);
        lemma_ray_ahead(p, t, side, d);
        assert(!ray(p, b, side, d).contains(t));
        if c == side {
            assert(ray(q, s, side, d) =~= ray(p, s, side, d).difference(
                ray(p, b, side, d),
            ).remove(b));
        } else {
            assert(ray(q, s, side, d) =~= ray(p, s, side, d).difference(ray(p, b, side, d)));
        }
    }
}

/// A square is among the leaps over `dirs` exactly when one of `dirs` steps
/// onto it and it does not hold a piece of the same side.
pub proof fn lemma_leaps_contain(p: Position, s: int, side: u8, dirs: Seq<Dir>, t: int)
    ensures
        leaps(p, s, side, dirs).contains(t) == ((exists|i: int|
            0 <= i < dirs.len() && step(s, #[trigger] dirs[i]) == Some(t)) && !is_own(p, t, side)),
    decreases dirs.len(),
{
    if dirs.len() > 0 {
        let init = dirs.drop_last();
        lemma_leaps_contain(p, s, side, init, t);
        if exists|i: int| 0 <= i < dirs.len() && step(s, #[trigger] dirs[i]) == Some(t) {
            let i = choose|i: int| 0 <= i < dirs.len() && step(s, #[trigger] dirs[i]) == Some(t);
            if i < dirs.len() - 1 {
                assert(init[i] == dirs[i]);
            }
        }
        if exists|i: int| 0 <= i < init.len() && step(s, #[trigger] init[i]) == Some(t) {
            let i = choose|i: int| 0 <= i < init.len() && step(s, #[trigger] init[i]) == Some(t);
            assert(dirs[i] == init[i]);
        }
    }
}

/// The steps of a king, or the leaps of any other piece.
pub open spec fn leaper_dirs(kind: PieceKind) -> Seq<Dir> {
    if kind == KING {
        king_dirs()
    } else {
        knight_dirs()
    }
}

/// A king or a knight attacks a square exactly when one of its steps lands
/// there and the square does not hold a piece of its own side: nothing on
/// other squares matters, so two positions that agree on that square give
/// the same answer.
pub proof fn lemma_leaper_attacks(kind: PieceKind, p: Position, q: Position, s: int, side: u8, t: int)
    requires
        kind == KING || kind == KNIGHT,
    ensures
        attack_set(kind, p, s, side).contains(t) == ((exists|i: int|
            0 <= i < leaper_dirs(kind).len() && step(s, #[trigger] leaper_dirs(kind)[i]) == Some(
                t,
            )) && !is_own(p, t, side)),
        is_own(p, t, side) == is_own(q, t, side) ==> attack_set(kind, p, s, side).contains(t)
            == attack_set(kind, q, s, side).contains(t),
{
    lemma_leaps_contain(p, s, side, leaper_dirs(kind), t);
    lemma_leaps_contain(q, s, side, leaper_dirs(kind), t);
}

proof fn lemma_rays_concat(p: Position, s: int, side: u8, a: Seq<Dir>, b: Seq<Dir>)
    ensures
        rays(p, s, side, a + b) == rays(p, s, side, a).union(rays(p, s, side, b)),
    decreases b.len(),
{
    if b.len() == 0 {
        assert(a + b =~= a);
        assert(rays(p, s, side, a).union(Set::empty()) =~= rays(p, s, side, a));
    } else {
        assert((a + b).drop_last() =~= a + b.drop_last());
        lemma_rays_concat(p, s, side, a, b.drop_last());
        assert(rays(p, s, side, a + b) =~= rays(p, s, side, a).union(rays(p, s, side, b)));
    }
}

/// A queen attacks what a rook and a bishop on its square would attack
/// together.
pub proof fn lemma_queen_attacks(p: Position, s: int, side: u8)
    ensures
        attack_set(QUEEN, p, s, side) == attack_set(ROOK, p, s, side).union(
            attack_set(BISHOP, p, s, side),
        ),
{
    lemma_rays_concat(p, s, side, rook_dirs(), bishop_dirs());
}

} // verus!
