//! The legality predicate of each kind of piece.
//!
//! Every predicate answers from the board and the mover's colour alone. A move
//! with an endpoint off the board is never legal.

use vstd::prelude::*;
use vstd::math::abs;
use crate::board::{
    Board, Color, Figure, FigureKind, Move, Pos,
    on_board, empty_at, enemy_at, friend_at, is_on_board, is_empty, is_enemy,
};
use crate::rays::{
    ray, reaches, passable, square_at, is_direction, is_orthogonal, is_diagonal, check_line,
    contains_square, lemma_ray_contains, lemma_square_unique, lemma_square_moves,
    lemma_friend_blocks_ray, lemma_enemy_ends_ray,
};

verus! {

/// The rank step of a pawn of colour `c`: -1 for white, +1 for black.
pub open spec fn direction_of(c: Color) -> int {
    match c {
        Color::W => -1,
        Color::B => 1,
    }
}

/// The rank step of a pawn of colour `color`: -1 for white, whose pawns go
/// towards rank 0, and +1 for black.
pub fn get_direction(color: Color) -> (dir: i32)
    ensures
        dir == direction_of(color),
{
    return match color {
        Color::W => -1,
        Color::B => 1,
    }
}

/// A piece of colour `c` may land on `d`: the square is empty or holds an enemy.
pub open spec fn free_for(b: Board, d: Pos, c: Color) -> bool {
    empty_at(b, d) || enemy_at(b, d, c)
}

/// A pawn of colour `c` may go from `s` to `d`: one rank forward, either
/// straight onto an empty square or one file aside onto an enemy.
pub open spec fn pawn_move(s: Pos, d: Pos, b: Board, c: Color) -> bool {
    &&& on_board(s)
    &&& on_board(d)
    &&& d.1 == s.1 + direction_of(c)
    &&& (s.0 == d.0 && empty_at(b, d)) || (abs(s.0 - d.0) == 1 && enemy_at(b, d, c))
}

/// The knight's test on a displacement of `dx` files and `dy` ranks, the test
/// of the shape of an L: one of the two absolute differences is 1 and the
/// other is 2.
pub open spec fn knight_shape(dx: int, dy: int) -> bool {
    (abs(dx) == 1 && abs(dy) == 2) || (abs(dx) == 2 && abs(dy) == 1)
}

/// A knight of colour `c` may go from `s` to `d`.
pub open spec fn knight_move(s: Pos, d: Pos, b: Board, c: Color) -> bool {
    on_board(s) && on_board(d) && knight_shape(d.0 - s.0, d.1 - s.1) && free_for(b, d, c)
}

/// The king's test on a displacement of `dx` files and `dy` ranks: at most one
/// of each, and not none of both.
pub open spec fn king_shape(dx: int, dy: int) -> bool {
    abs(dx) <= 1 && abs(dy) <= 1 && (dx != 0 || dy != 0)
}

/// A king of colour `c` may go from `s` to `d`.
pub open spec fn king_move(s: Pos, d: Pos, b: Board, c: Color) -> bool {
    on_board(s) && on_board(d) && king_shape(d.0 - s.0, d.1 - s.1) && free_for(b, d, c)
}

/// A rook of colour `c` may go from `s` to `d`: `d` lies on one of its rays
/// along the four orthogonal directions.
pub open spec fn rook_move(s: Pos, d: Pos, b: Board, c: Color) -> bool {
    &&& on_board(s)
    &&& on_board(d)
    &&& exists|dir: Pos| is_orthogonal(dir) && #[trigger] ray(b, c, s, dir).contains(d)
}

/// A bishop of colour `c` may go from `s` to `d`: `d` lies on one of its rays
/// along the four diagonal directions.
pub open spec fn bishop_move(s: Pos, d: Pos, b: Board, c: Color) -> bool {
    &&& on_board(s)
    &&& on_board(d)
    &&& exists|dir: Pos| is_diagonal(dir) && #[trigger] ray(b, c, s, dir).contains(d)
}

/// A queen of colour `c` may go from `s` to `d`: `d` lies on one of its rays
/// along the eight directions.
pub open spec fn queen_move(s: Pos, d: Pos, b: Board, c: Color) -> bool {
    &&& on_board(s)
    &&& on_board(d)
    &&& exists|dir: Pos| is_direction(dir) && #[trigger] ray(b, c, s, dir).contains(d)
}

/// The piece `figure` may make the move `m` on board `b`, by the rule of its kind.
pub open spec fn figure_move(figure: Figure, m: Move, b: Board) -> bool {
    match figure.kind {
        FigureKind::Pawn => pawn_move(m.0, m.1, b, figure.color),
        FigureKind::Knight => knight_move(m.0, m.1, b, figure.color),
        FigureKind::Rook => rook_move(m.0, m.1, b, figure.color),
        FigureKind::Bishop => bishop_move(m.0, m.1, b, figure.color),
        FigureKind::Queen => queen_move(m.0, m.1, b, figure.color),
        FigureKind::King => king_move(m.0, m.1, b, figure.color),
    }
}

/// The four orthogonal rays from `s`, one after the other.
spec fn orthogonal_rays(b: Board, c: Color, s: Pos) -> Seq<Pos> {
    ray(b, c, s, (0, 1)) + ray(b, c, s, (0, -1i32)) + ray(b, c, s, (1, 0)) + ray(
        b,
        c,
        s,
        (-1i32, 0),
    )
}

/// The four diagonal rays from `s`, one after the other.
spec fn diagonal_rays(b: Board, c: Color, s: Pos) -> Seq<Pos> {
    ray(b, c, s, (1, 1)) + ray(b, c, s, (1, -1i32)) + ray(b, c, s, (-1i32, 1)) + ray(
        b,
        c,
        s,
        (-1i32, -1i32),
    )
}

/// A value occurs in a concatenation exactly when it occurs in one of the parts.
proof fn lemma_contains_concat(x: Seq<Pos>, y: Seq<Pos>, d: Pos)
    ensures
        (x + y).contains(d) <==> x.contains(d) || y.contains(d),
{
    let z = x + y;
    if z.contains(d) {
        let i = choose|i: int| 0 <= i < z.len() && z[i] == d;
        if i < x.len() {
            assert(x[i] == d);
        } else {
            assert(y[i - x.len()] == d);
        }
    }
    if x.contains(d) {
        let i = choose|i: int| 0 <= i < x.len() && x[i] == d;
        assert(z[i] == d);
    }
    if y.contains(d) {
        let i = choose|i: int| 0 <= i < y.len() && y[i] == d;
        assert(z[i + x.len()] == d);
    }
}

/// The four orthogonal rays together hold `d` exactly when a rook may go there.
proof fn lemma_orthogonal_rays(b: Board, c: Color, s: Pos, d: Pos)
    requires
        on_board(s),
        on_board(d),
    ensures
        orthogonal_rays(b, c, s).contains(d) <==> rook_move(s, d, b, c),
{
    let d0: Pos = (0, 1);
    let d1: Pos = (0, -1i32);
    let d2: Pos = (1, 0);
    let d3: Pos = (-1i32, 0);
    let r0 = ray(b, c, s, d0);
    let r1 = ray(b, c, s, d1);
    let r2 = ray(b, c, s, d2);
    let r3 = ray(b, c, s, d3);
    lemma_contains_concat(r0, r1, d);
    lemma_contains_concat(r0 + r1, r2, d);
    lemma_contains_concat(r0 + r1 + r2, r3, d);
    assert(is_orthogonal(d0) && is_orthogonal(d1) && is_orthogonal(d2) && is_orthogonal(d3));
    assert forall|dir: Pos| is_orthogonal(dir) implies dir == d0 || dir == d1 || dir == d2 || dir
        == d3 by {}
}

/// The four diagonal rays together hold `d` exactly when a bishop may go there.
proof fn lemma_diagonal_rays(b: Board, c: Color, s: Pos, d: Pos)
    requires
        on_board(s),
        on_board(d),
    ensures
        diagonal_rays(b, c, s).contains(d) <==> bishop_move(s, d, b, c),
{
    let d0: Pos = (1, 1);
    let d1: Pos = (1, -1i32);
    let d2: Pos = (-1i32, 1);
    let d3: Pos = (-1i32, -1i32);
    let r0 = ray(b, c, s, d0);
    let r1 = ray(b, c, s, d1);
    let r2 = ray(b, c, s, d2);
    let r3 = ray(b, c, s, d3);
    lemma_contains_concat(r0, r1, d);
    lemma_contains_concat(r0 + r1, r2, d);
    lemma_contains_concat(r0 + r1 + r2, r3, d);
    assert(is_diagonal(d0) && is_diagonal(d1) && is_diagonal(d2) && is_diagonal(d3));
    assert forall|dir: Pos| is_diagonal(dir) implies dir == d0 || dir == d1 || dir == d2 || dir
        == d3 by {}
}

/// The queen combines rook and bishop: her rays are theirs together.
pub proof fn lemma_queen_is_rook_or_bishop(s: Pos, d: Pos, b: Board, c: Color)
    ensures
        queen_move(s, d, b, c) <==> rook_move(s, d, b, c) || bishop_move(s, d, b, c),
{
    if queen_move(s, d, b, c) {
        let dir = choose|dir: Pos| is_direction(dir) && #[trigger] ray(b, c, s, dir).contains(d);
        assert(is_orthogonal(dir) || is_diagonal(dir));
    }
    if rook_move(s, d, b, c) {
        let dir = choose|dir: Pos| is_orthogonal(dir) && #[trigger] ray(b, c, s, dir).contains(d);
        assert(is_direction(dir));
    }
    if bishop_move(s, d, b, c) {
        let dir = choose|dir: Pos| is_diagonal(dir) && #[trigger] ray(b, c, s, dir).contains(d);
        assert(is_direction(dir));
    }
}

/// The absolute difference of two board coordinates.
fn span(from: i32, to: i32) -> (n: i32)
    requires
        0 <= from < 8,
        0 <= to < 8,
    ensures
        n == abs(to - from),
{
    if to >= from {
        to - from
    } else {
        from - to
    }
}

/// Whether `figure` may make the move `move_` on `board`, by the rule of its
/// kind and for its colour. The piece need not stand on the board.
pub fn figure_move_is_valid(figure: Figure, move_: Move, board: Board) -> (r: bool)
    ensures
        r == figure_move(figure, move_, board),
{
    match figure.kind {
        FigureKind::Pawn => move_is_valid_for_pawn(move_.0, move_.1, board, figure.color),
        FigureKind::Knight => move_is_valid_for_knight(move_.0, move_.1, board, figure.color),
        FigureKind::Rook => move_is_valid_for_rook(move_.0, move_.1, board, figure.color),
        FigureKind::Bishop => move_is_valid_for_bishop(move_.0, move_.1, board, figure.color),
        FigureKind::Queen => move_is_valid_for_queen(move_.0, move_.1, board, figure.color),
        FigureKind::King => move_is_valid_for_king(move_.0, move_.1, board, figure.color),
    }
}

/// Whether a pawn of colour `c` may go from `s` to `d`: one rank forward onto
/// an empty square of the same file, or onto an enemy one file aside. There is
/// no double step, no capture in passing and no promotion.
pub fn move_is_valid_for_pawn(s: Pos, d: Pos, b: Board, c: Color) -> (r: bool)
    ensures
        r == pawn_move(s, d, b, c),
{
    if !is_on_board(s) || !is_on_board(d) {
        return false;
    }
    let dir: i32 = get_direction(c);
    (s.0 == d.0 && d.1 == s.1 + dir && is_empty(d, b)) || (span(d.0, s.0) == 1 && d.1 == s.1 + dir
        && is_enemy(d, c, b))
}

/// Whether a rook of colour `c` may go from `s` to `d`: along a file or a
/// rank, over empty squares only, onto an empty square or an enemy.
pub fn move_is_valid_for_rook(s: Pos, d: Pos, b: Board, c: Color) -> (r: bool)
    ensures
        r == rook_move(s, d, b, c),
{
    if !is_on_board(s) || !is_on_board(d) {
        return false;
    }
    let mut valid_moves: Vec<Pos> = Vec::with_capacity(14);
    check_line(s, (0, 1), b, c, &mut valid_moves);
    check_line(s, (0, -1), b, c, &mut valid_moves);
    check_line(s, (1, 0), b, c, &mut valid_moves);
    check_line(s, (-1, 0), b, c, &mut valid_moves);
    proof {
        assert(valid_moves@ =~= orthogonal_rays(b, c, s));
        lemma_orthogonal_rays(b, c, s, d);
    }
    contains_square(&valid_moves, d)
}

/// Whether a knight of colour `c` may go from `s` to `d`: the displacement
/// is one of the eight of the shape of an L and `d` is empty or holds an enemy.
/// What stands in between does not matter.
pub fn move_is_valid_for_knight(s: Pos, d: Pos, b: Board, c: Color) -> (r: bool)
    ensures
        r == knight_move(s, d, b, c),
{
    if !is_on_board(s) || !is_on_board(d) {
        return false;
    }
    let ax: i32 = span(s.0, d.0);
    let ay: i32 = span(s.1, d.1);
    ((ax == 1 && ay == 2) || (ax == 2 && ay == 1)) && (is_empty(d, b) || is_enemy(d, c, b))
}

/// Whether a bishop of colour `c` may go from `s` to `d`: along a diagonal,
/// over empty squares only, onto an empty square or an enemy.
pub fn move_is_valid_for_bishop(s: Pos, d: Pos, b: Board, c: Color) -> (r: bool)
    ensures
        r == bishop_move(s, d, b, c),
{
    if !is_on_board(s) || !is_on_board(d) {
        return false;
    }
    let mut valid_moves: Vec<Pos> = Vec::with_capacity(14);
    check_line(s, (1, 1), b, c, &mut valid_moves);
    check_line(s, (1, -1), b, c, &mut valid_moves);
    check_line(s, (-1, 1), b, c, &mut valid_moves);
    check_line(s, (-1, -1), b, c, &mut valid_moves);
    proof {
        assert(valid_moves@ =~= diagonal_rays(b, c, s));
        lemma_diagonal_rays(b, c, s, d);
    }
    contains_square(&valid_moves, d)
}

/// Whether a queen of colour `c` may go from `s` to `d`: as a rook or as a
/// bishop.
pub fn move_is_valid_for_queen(s: Pos, d: Pos, b: Board, c: Color) -> (r: bool)
    ensures
        r == queen_move(s, d, b, c),
{
    if !is_on_board(s) || !is_on_board(d) {
        return false;
    }
    let mut valid_moves: Vec<Pos> = Vec::with_capacity(28);
    check_line(s, (0, 1), b, c, &mut valid_moves);
    check_line(s, (0, -1), b, c, &mut valid_moves);
    check_line(s, (1, 0), b, c, &mut valid_moves);
    check_line(s, (-1, 0), b, c, &mut valid_moves);
    check_line(s, (1, 1), b, c, &mut valid_moves);
    check_line(s, (1, -1), b, c, &mut valid_moves);
    check_line(s, (-1, 1), b, c, &mut valid_moves);
    check_line(s, (-1, -1), b, c, &mut valid_moves);
    proof {
        lemma_orthogonal_rays(b, c, s, d);
        lemma_diagonal_rays(b, c, s, d);
        lemma_queen_is_rook_or_bishop(s, d, b, c);
        lemma_contains_concat(orthogonal_rays(b, c, s), diagonal_rays(b, c, s), d);
        assert(valid_moves@ =~= orthogonal_rays(b, c, s) + diagonal_rays(b, c, s));
    }
    contains_square(&valid_moves, d)
}

/// Whether a king of colour `c` may go from `s` to `d`: onto a neighbouring
/// square that is empty or holds an enemy. Staying on `s` is no move.
pub fn move_is_valid_for_king(s: Pos, d: Pos, b: Board, c: Color) -> (r: bool)
    ensures
        r == king_move(s, d, b, c),
{
    if !is_on_board(s) || !is_on_board(d) {
        return false;
    }
    if s.0 == d.0 && s.1 == d.1 {
        return false;
    }
    span(s.0, d.0) <= 1 && span(s.1, d.1) <= 1 && (is_empty(d, b) || is_enemy(d, c, b))
}

/// A sliding move, square by square: a queen may go to the square `j` steps
/// away in direction `dir` exactly when she reaches it, that is when every
/// nearer square on the way is empty and the square holds no piece of her own
/// colour. A rook may go there when moreover the direction is orthogonal, a
/// bishop when it is diagonal.
pub proof fn lemma_slide_reaches(b: Board, c: Color, s: Pos, dir: Pos, j: int)
    requires
        on_board(s),
        is_direction(dir),
        1 <= j < 8,
    ensures
        queen_move(s, square_at(s, dir, j), b, c) <==> reaches(b, c, s, dir, j),
        rook_move(s, square_at(s, dir, j), b, c) <==> is_orthogonal(dir) && reaches(
            b,
            c,
            s,
            dir,
            j,
        ),
        bishop_move(s, square_at(s, dir, j), b, c) <==> is_diagonal(dir) && reaches(
            b,
            c,
            s,
            dir,
            j,
        ),
{
    let d = square_at(s, dir, j);
    lemma_queen_is_rook_or_bishop(s, d, b, c);
    lemma_ray_contains(b, c, s, dir, d);
    if reaches(b, c, s, dir, j) {
        assert(ray(b, c, s, dir).contains(d));
    }
    assert forall|other: Pos| is_direction(other) && #[trigger] ray(b, c, s, other).contains(
        d,
    ) implies other == dir && reaches(b, c, s, dir, j) by {
        lemma_ray_contains(b, c, s, other, d);
        let k = choose|k: int|
            1 <= k < 8 && d == square_at(s, other, k) && #[trigger] reaches(b, c, s, other, k);
        lemma_square_unique(s, other, k, dir, j);
    }
}

/// A piece of the mover's own colour blocks a sliding piece: with such a piece
/// `k` steps away in some direction, no rook, bishop or queen of that colour
/// may go to its square or to any square beyond it in that direction.
pub proof fn lemma_friend_blocks(b: Board, c: Color, s: Pos, dir: Pos, k: int, j: int)
    requires
        on_board(s),
        is_direction(dir),
        1 <= k <= j < 8,
        on_board(square_at(s, dir, k)),
        friend_at(b, square_at(s, dir, k), c),
    ensures
        !rook_move(s, square_at(s, dir, j), b, c),
        !bishop_move(s, square_at(s, dir, j), b, c),
        !queen_move(s, square_at(s, dir, j), b, c),
{
    lemma_friend_blocks_ray(b, c, s, dir, k, j);
    lemma_slide_reaches(b, c, s, dir, j);
}

/// An enemy piece ends a sliding piece's way: with an enemy as the first piece
/// met, `k` steps away in some direction, a queen may go to each of the empty
/// squares before it and may capture it, and may go to no square beyond it. The
/// same holds of a rook along an orthogonal and of a bishop along a diagonal
/// direction.
pub proof fn lemma_enemy_stops(b: Board, c: Color, s: Pos, dir: Pos, k: int, j: int)
    requires
        on_board(s),
        is_direction(dir),
        1 <= k,
        forall|i: int| 1 <= i < k ==> passable(b, #[trigger] square_at(s, dir, i)),
        on_board(square_at(s, dir, k)),
        enemy_at(b, square_at(s, dir, k), c),
        1 <= j < 8,
    ensures
        queen_move(s, square_at(s, dir, j), b, c) <==> j <= k,
        rook_move(s, square_at(s, dir, j), b, c) <==> is_orthogonal(dir) && j <= k,
        bishop_move(s, square_at(s, dir, j), b, c) <==> is_diagonal(dir) && j <= k,
{
    lemma_enemy_ends_ray(b, c, s, dir, k);
    lemma_slide_reaches(b, c, s, dir, j);
}

/// The eight displacements of the shape of an L, one by one.
pub open spec fn l_shape(dx: int, dy: int) -> bool {
    ||| (dx == 1 && dy == 2)
    ||| (dx == 2 && dy == 1)
    ||| (dx == 2 && dy == -1)
    ||| (dx == 1 && dy == -2)
    ||| (dx == -1 && dy == -2)
    ||| (dx == -2 && dy == -1)
    ||| (dx == -2 && dy == 1)
    ||| (dx == -1 && dy == 2)
}

/// The knight's test does not change when the displacement is turned by a
/// quarter of a circle.
pub proof fn lemma_knight_shape_rotates(dx: int, dy: int)
    ensures
        knight_shape(dx, dy) == knight_shape(-dy, dx),
{
}

/// The knight's test passes the eight L-shaped displacements and no other.
pub proof fn lemma_knight_shapes(dx: int, dy: int)
    ensures
        knight_shape(dx, dy) <==> l_shape(dx, dy),
{
}

/// A knight may make each L-shaped jump that stays on the board and lands on
/// a square that is empty or holds an enemy.
pub proof fn lemma_knight_jumps(s: Pos, d: Pos, b: Board, c: Color)
    requires
        on_board(s),
        on_board(d),
        l_shape(d.0 - s.0, d.1 - s.1),
        free_for(b, d, c),
    ensures
        knight_move(s, d, b, c),
{
}

/// A knight may make no move whose displacement is not L-shaped, whatever
/// stands on the board.
pub proof fn lemma_knight_rejects(s: Pos, d: Pos, b: Board, c: Color)
    requires
        !l_shape(d.0 - s.0, d.1 - s.1),
    ensures
        !knight_move(s, d, b, c),
{
}

/// Turning a knight's jump by a quarter of a circle keeps it legal, as long as
/// the turned jump stays on the board and its landing square is as free as the
/// first one.
pub proof fn lemma_knight_move_rotates(s: Pos, d1: Pos, d2: Pos, b: Board, c: Color)
    requires
        on_board(d1),
        on_board(d2),
        d2.0 - s.0 == -(d1.1 - s.1),
        d2.1 - s.1 == d1.0 - s.0,
        free_for(b, d1, c) == free_for(b, d2, c),
    ensures
        knight_move(s, d1, b, c) == knight_move(s, d2, b, c),
{
}

/// Neither a king nor a knight may land on a piece of its own colour, whatever
/// the shape of the move.
pub proof fn lemma_own_piece_blocks(s: Pos, d: Pos, b: Board, c: Color)
    requires
        friend_at(b, d, c),
    ensures
        !king_move(s, d, b, c),
        !knight_move(s, d, b, c),
{
}

/// A pawn goes exactly one rank forward and at most one file aside; it never
/// advances two squares.
pub proof fn lemma_pawn_steps(s: Pos, d: Pos, b: Board, c: Color)
    requires
        pawn_move(s, d, b, c),
    ensures
        d.1 - s.1 == direction_of(c),
        abs(d.0 - s.0) <= 1,
        d.0 == s.0 <==> empty_at(b, d),
        d.0 != s.0 <==> enemy_at(b, d, c),
{
}

/// No piece may land on a piece of its own colour: a legal move of any kind
/// ends on a square that is empty or holds an enemy.
pub proof fn lemma_figure_move_lands_free(figure: Figure, m: Move, b: Board)
    requires
        figure_move(figure, m, b),
    ensures
        free_for(b, m.1, figure.color),
{
    let (s, d) = m;
    let c = figure.color;
    lemma_queen_is_rook_or_bishop(s, d, b, c);
    if queen_move(s, d, b, c) {
        let dir = choose|dir: Pos| is_direction(dir) && #[trigger] ray(b, c, s, dir).contains(d);
        lemma_ray_contains(b, c, s, dir, d);
    }
}

/// No piece may stay where it is: a legal move of any kind ends on another
/// square than it starts from.
pub proof fn lemma_figure_move_displaces(figure: Figure, m: Move, b: Board)
    requires
        figure_move(figure, m, b),
    ensures
        m.0 != m.1,
{
    let (s, d) = m;
    let c = figure.color;
    lemma_queen_is_rook_or_bishop(s, d, b, c);
    if queen_move(s, d, b, c) {
        let dir = choose|dir: Pos| is_direction(dir) && #[trigger] ray(b, c, s, dir).contains(d);
        lemma_ray_contains(b, c, s, dir, d);
        let k = choose|k: int|
            1 <= k < 8 && d == square_at(s, dir, k) && #[trigger] reaches(b, c, s, dir, k);
        lemma_square_moves(s, dir, k);
    }
}

} // verus!
