//! Ray casting: the walk along one compass direction that rooks, bishops and
//! queens share.

use vstd::prelude::*;
use crate::board::{Board, Color, Pos, on_board, empty_at, enemy_at, friend_at, is_empty, is_enemy};

verus! {

/// `dir` is one of the eight compass directions: each component is -1, 0 or 1,
/// and they are not both 0.
pub open spec fn is_direction(dir: Pos) -> bool {
    -1 <= dir.0 <= 1 && -1 <= dir.1 <= 1 && (dir.0 != 0 || dir.1 != 0)
}

/// `dir` is one of the four directions along a file or a rank.
pub open spec fn is_orthogonal(dir: Pos) -> bool {
    is_direction(dir) && (dir.0 == 0 || dir.1 == 0)
}

/// `dir` is one of the four directions along a diagonal.
pub open spec fn is_diagonal(dir: Pos) -> bool {
    is_direction(dir) && dir.0 != 0 && dir.1 != 0
}

/// The square `k` steps away from `s` in direction `dir`.
pub open spec fn square_at(s: Pos, dir: Pos, k: int) -> Pos {
    ((s.0 + k * dir.0) as i32, (s.1 + k * dir.1) as i32)
}

/// A bound on the number of steps that a walk from `s` in direction `dir` can
/// take before it leaves the board.
pub open spec fn room(s: Pos, dir: Pos) -> int {
    if dir.0 > 0 {
        7 - s.0
    } else if dir.0 < 0 {
        s.0 as int
    } else if dir.1 > 0 {
        7 - s.1
    } else {
        s.1 as int
    }
}

/// The squares that a sliding piece of colour `c` standing on `s` reaches in
/// direction `dir`, nearest first: the empty squares up to the first piece or
/// the edge of the board, and then that piece's square if it is an enemy.
pub open spec fn ray(b: Board, c: Color, s: Pos, dir: Pos) -> Seq<Pos>
    decreases room(s, dir),
{
    let p = square_at(s, dir, 1);
    if on_board(s) && is_direction(dir) && on_board(p) {
        if empty_at(b, p) {
            seq![p] + ray(b, c, p, dir)
        } else if enemy_at(b, p, c) {
            seq![p]
        } else {
            Seq::empty()
        }
    } else {
        Seq::empty()
    }
}

/// Walks from `s` in direction `dir` and appends to `valid_moves` every square
/// that a sliding piece of colour `c` reaches: each empty square passed, and the
/// first occupied square if an enemy stands on it.
pub fn check_line(s: Pos, dir: Pos, b: Board, c: Color, valid_moves: &mut Vec<Pos>)
    requires
        on_board(s),
        is_direction(dir),
    ensures
        final(valid_moves)@ == old(valid_moves)@ + ray(b, c, s, dir),
{
    let mut x: i32 = s.0;
    let mut y: i32 = s.1;
    loop
        invariant_except_break
            on_board((x, y)),
            is_direction(dir),
            valid_moves@ + ray(b, c, (x, y), dir) == old(valid_moves)@ + ray(b, c, s, dir),
        ensures
            valid_moves@ == old(valid_moves)@ + ray(b, c, s, dir),
        decreases room((x, y), dir),
    {
        let ghost from: Pos = (x, y);
        let ghost before = valid_moves@;
        x = x + dir.0;
        y = y + dir.1;
        assert((x, y) == square_at(from, dir, 1));
        if !(0 <= x && x < 8 && 0 <= y && y < 8) {
            assert(before + ray(b, c, from, dir) =~= before);
            break;
        }
        if is_empty((x, y), b) {
            valid_moves.push((x, y));
            assert(valid_moves@ + ray(b, c, (x, y), dir) =~= before + ray(b, c, from, dir));
            continue;
        }
        if is_enemy((x, y), c, b) {
            valid_moves.push((x, y));
        }
        assert(valid_moves@ =~= before + ray(b, c, from, dir));
        break;
    }
}

/// Whether `d` is one of `squares`.
pub fn contains_square(squares: &Vec<Pos>, d: Pos) -> (found: bool)
    ensures
        found == squares@.contains(d),
{
    let mut i: usize = 0;
    while i < squares.len()
        invariant
            i <= squares.len(),
            forall|j: int| 0 <= j < i ==> squares@[j] != d,
        decreases squares.len() - i,
    {
        let p: Pos = squares[i];
        if p.0 == d.0 && p.1 == d.1 {
            return true;
        }
        i = i + 1;
    }
    false
}

/// A square on the board that holds no piece: a sliding piece may pass over it.
pub open spec fn passable(b: Board, p: Pos) -> bool {
    on_board(p) && empty_at(b, p)
}

/// A sliding piece of colour `c` on `s` reaches the square `k` steps away in
/// direction `dir`: every nearer square in that direction is on the board and
/// empty, and the square itself is on the board and holds no piece of colour `c`.
pub open spec fn reaches(b: Board, c: Color, s: Pos, dir: Pos, k: int) -> bool {
    &&& 1 <= k
    &&& forall|j: int| 1 <= j < k ==> passable(b, #[trigger] square_at(s, dir, j))
    &&& on_board(square_at(s, dir, k))
    &&& !friend_at(b, square_at(s, dir, k), c)
}

/// Taking one step and then `k` more is taking `k + 1` steps.
proof fn lemma_square_shift(s: Pos, dir: Pos, k: int)
    requires
        on_board(s),
        is_direction(dir),
    ensures
        square_at(square_at(s, dir, 1), dir, k) == square_at(s, dir, k + 1),
{
    assert((k + 1) * dir.0 == k * dir.0 + dir.0) by (nonlinear_arith);
    assert((k + 1) * dir.1 == k * dir.1 + dir.1) by (nonlinear_arith);
}

/// Past an empty first square, reaching the square `k + 1` steps from `s` is
/// reaching the square `k` steps from that first square.
proof fn lemma_reaches_shift(b: Board, c: Color, s: Pos, dir: Pos, k: int)
    requires
        on_board(s),
        is_direction(dir),
        passable(b, square_at(s, dir, 1)),
        1 <= k,
    ensures
        reaches(b, c, s, dir, k + 1) <==> reaches(b, c, square_at(s, dir, 1), dir, k),
{
    let p = square_at(s, dir, 1);
    lemma_square_shift(s, dir, k);
    if reaches(b, c, s, dir, k + 1) {
        assert forall|j: int| 1 <= j < k implies passable(b, #[trigger] square_at(p, dir, j)) by {
            lemma_square_shift(s, dir, j);
            assert(passable(b, square_at(s, dir, j + 1)));
        }
    }
    if reaches(b, c, p, dir, k) {
        assert forall|j: int| 1 <= j < k + 1 implies passable(
            b,
            #[trigger] square_at(s, dir, j),
        ) by {
            if j > 1 {
                lemma_square_shift(s, dir, j - 1);
                assert(passable(b, square_at(p, dir, j - 1)));
            }
        }
    }
}

/// The ray, square by square: it holds at most seven squares, its `i`-th square
/// is the one `i + 1` steps from `s`, and it holds exactly the squares that the
/// piece reaches.
pub proof fn lemma_ray_squares(b: Board, c: Color, s: Pos, dir: Pos)
    requires
        on_board(s),
        is_direction(dir),
    ensures
        ray(b, c, s, dir).len() <= room(s, dir) <= 7,
        forall|i: int|
            0 <= i < ray(b, c, s, dir).len() ==> #[trigger] ray(b, c, s, dir)[i] == square_at(
                s,
                dir,
                i + 1,
            ),
        forall|k: int|
            1 <= k < 8 ==> (k <= ray(b, c, s, dir).len() <==> #[trigger] reaches(b, c, s, dir, k)),
    decreases room(s, dir),
{
    let p = square_at(s, dir, 1);
    let r = ray(b, c, s, dir);
    if on_board(p) && empty_at(b, p) {
        let rp = ray(b, c, p, dir);
        lemma_ray_squares(b, c, p, dir);
        assert(r =~= seq![p] + rp);
        assert forall|i: int| 0 <= i < r.len() implies #[trigger] r[i] == square_at(
            s,
            dir,
            i + 1,
        ) by {
            if i > 0 {
                assert(r[i] == rp[i - 1]);
                lemma_square_shift(s, dir, i);
            }
        }
        assert forall|k: int| 1 <= k < 8 implies (k <= r.len() <==> #[trigger] reaches(
            b,
            c,
            s,
            dir,
            k,
        )) by {
            if k > 1 {
                lemma_reaches_shift(b, c, s, dir, k - 1);
                assert(k - 1 <= rp.len() <==> reaches(b, c, p, dir, k - 1));
            }
        }
    } else {
        assert forall|k: int| 1 <= k < 8 implies (k <= r.len() <==> #[trigger] reaches(
            b,
            c,
            s,
            dir,
            k,
        )) by {
            if k > 1 {
                assert(!passable(b, square_at(s, dir, 1)));
            }
        }
    }
}

/// A square lies on the ray exactly when the piece reaches it at some distance.
pub proof fn lemma_ray_contains(b: Board, c: Color, s: Pos, dir: Pos, d: Pos)
    requires
        on_board(s),
        is_direction(dir),
    ensures
        ray(b, c, s, dir).contains(d) <==> exists|k: int|
            1 <= k < 8 && d == square_at(s, dir, k) && #[trigger] reaches(b, c, s, dir, k),
{
    let r = ray(b, c, s, dir);
    lemma_ray_squares(b, c, s, dir);
    if r.contains(d) {
        let i = choose|i: int| 0 <= i < r.len() && r[i] == d;
        assert(reaches(b, c, s, dir, i + 1));
    }
    if exists|k: int|
        1 <= k < 8 && d == square_at(s, dir, k) && #[trigger] reaches(b, c, s, dir, k) {
        let k = choose|k: int|
            1 <= k < 8 && d == square_at(s, dir, k) && #[trigger] reaches(b, c, s, dir, k);
        assert(r[k - 1] == d);
    }
}

/// The shape of a ray: all its squares are on the board, all but the last are
/// empty, and the last is empty or holds an enemy.
pub proof fn lemma_ray_shape(b: Board, c: Color, s: Pos, dir: Pos, i: int)
    requires
        on_board(s),
        is_direction(dir),
        0 <= i < ray(b, c, s, dir).len(),
    ensures
        on_board(ray(b, c, s, dir)[i]),
        !friend_at(b, ray(b, c, s, dir)[i], c),
        i + 1 < ray(b, c, s, dir).len() ==> empty_at(b, ray(b, c, s, dir)[i]),
{
    let r = ray(b, c, s, dir);
    lemma_ray_squares(b, c, s, dir);
    assert(reaches(b, c, s, dir, i + 1));
    if i + 1 < r.len() {
        assert(reaches(b, c, s, dir, i + 2));
        assert(passable(b, square_at(s, dir, i + 1)));
    }
}

/// Walking `k` steps in a direction moves each coordinate by `k`, by `-k` or
/// not at all.
proof fn lemma_unit_scale(k: int, d: int)
    requires
        -1 <= d <= 1,
    ensures
        k * d == (if d == 1 {
            k
        } else if d == -1 {
            -k
        } else {
            0
        }),
{
    assert(k * 1 == k) by (nonlinear_arith);
    assert(k * (-1) == -k) by (nonlinear_arith);
    assert(k * 0 == 0) by (nonlinear_arith);
}

/// Two walks from one square arrive at the same square only if they go in the
/// same direction for the same number of steps.
pub proof fn lemma_square_unique(s: Pos, dir1: Pos, k1: int, dir2: Pos, k2: int)
    requires
        on_board(s),
        is_direction(dir1),
        is_direction(dir2),
        1 <= k1 < 8,
        1 <= k2 < 8,
        square_at(s, dir1, k1) == square_at(s, dir2, k2),
    ensures
        dir1 == dir2,
        k1 == k2,
{
    lemma_unit_scale(k1, dir1.0 as int);
    lemma_unit_scale(k1, dir1.1 as int);
    lemma_unit_scale(k2, dir2.0 as int);
    lemma_unit_scale(k2, dir2.1 as int);
}

/// A walk never comes back to the square that it started from.
pub proof fn lemma_square_moves(s: Pos, dir: Pos, k: int)
    requires
        on_board(s),
        is_direction(dir),
        1 <= k < 8,
    ensures
        square_at(s, dir, k) != s,
{
    lemma_unit_scale(k, dir.0 as int);
    lemma_unit_scale(k, dir.1 as int);
}

/// A piece of the mover's own colour blocks the ray: the ray ends before that
/// piece's square, so neither it nor any square beyond it is reached.
pub proof fn lemma_friend_blocks_ray(b: Board, c: Color, s: Pos, dir: Pos, k: int, j: int)
    requires
        on_board(s),
        is_direction(dir),
        1 <= k <= j < 8,
        on_board(square_at(s, dir, k)),
        friend_at(b, square_at(s, dir, k), c),
    ensures
        ray(b, c, s, dir).len() < k,
        !reaches(b, c, s, dir, j),
        !ray(b, c, s, dir).contains(square_at(s, dir, j)),
{
    lemma_ray_squares(b, c, s, dir);
    assert(!reaches(b, c, s, dir, k));
    if j > k {
        assert(!passable(b, square_at(s, dir, k)));
    }
    if ray(b, c, s, dir).contains(square_at(s, dir, j)) {
        let r = ray(b, c, s, dir);
        let i = choose|i: int| 0 <= i < r.len() && r[i] == square_at(s, dir, j);
        lemma_square_unique(s, dir, i + 1, dir, j);
    }
}

/// An enemy piece that is the first piece met, `k` steps away, ends the ray on
/// its own square: the ray is the empty squares at distances `1..k` followed by
/// the enemy's square, and nothing beyond it.
pub proof fn lemma_enemy_ends_ray(b: Board, c: Color, s: Pos, dir: Pos, k: int)
    requires
        on_board(s),
        is_direction(dir),
        1 <= k,
        forall|j: int| 1 <= j < k ==> passable(b, #[trigger] square_at(s, dir, j)),
        on_board(square_at(s, dir, k)),
        enemy_at(b, square_at(s, dir, k), c),
    ensures
        k < 8,
        ray(b, c, s, dir) == Seq::new(k as nat, |i: int| square_at(s, dir, i + 1)),
        forall|j: int| 1 <= j < 8 ==> (#[trigger] reaches(b, c, s, dir, j) <==> j <= k),
{
    lemma_unit_scale(8, dir.0 as int);
    lemma_unit_scale(8, dir.1 as int);
    assert(!on_board(square_at(s, dir, 8)));
    if k > 8 {
        assert(passable(b, square_at(s, dir, 8)));
    }
    lemma_ray_squares(b, c, s, dir);
    assert forall|j: int| 1 <= j < 8 implies (#[trigger] reaches(b, c, s, dir, j) <==> j
        <= k) by {
        if j > k {
            assert(!passable(b, square_at(s, dir, k)));
        }
    }
    assert(reaches(b, c, s, dir, k));
    if k + 1 < 8 {
        assert(!reaches(b, c, s, dir, k + 1));
    }
    assert(ray(b, c, s, dir) =~= Seq::new(k as nat, |i: int| square_at(s, dir, i + 1)));
}

} // verus!
