//! The board model: colours, pieces, cells, the 8x8 grid and its coordinates.

use vstd::prelude::*;

verus! {

/// The two sides. White pawns advance towards rank 0, black pawns away from it.
#[derive(PartialEq, Eq, Structural, Clone, Copy, Debug)]
pub enum Color {
    W,
    B,
}

/// The six kinds of piece.
#[derive(PartialEq, Eq, Structural, Clone, Copy, Debug)]
pub enum FigureKind {
    Pawn,
    Knight,
    Rook,
    Bishop,
    Queen,
    King,
}

/// A piece: a kind together with the side that owns it.
#[derive(PartialEq, Eq, Structural, Clone, Copy, Debug)]
pub struct Figure {
    pub kind: FigureKind,
    pub color: Color,
}

/// The state of one square.
#[derive(PartialEq, Eq, Structural, Clone, Copy, Debug)]
pub enum Field {
    Empty,
    Figure(Figure),
}

/// A square, as (file, rank). It lies on the board when both coordinates are in `0..8`.
pub type Pos = (i32, i32);

/// A move, as (source, destination).
pub type Move = (Pos, Pos);

/// The grid, indexed `fields[rank][file]`. A board is a plain value: copying it
/// copies all 64 cells.
#[derive(PartialEq, Eq, Clone, Copy, Debug)]
pub struct Board {
    pub fields: [[Field; 8]; 8],
}

/// Both coordinates of `p` lie in `0..8`.
pub open spec fn on_board(p: Pos) -> bool {
    0 <= p.0 < 8 && 0 <= p.1 < 8
}

/// A board is viewed as the map from its 64 squares to the cells on them.
impl View for Board {
    type V = Map<Pos, Field>;

    open spec fn view(&self) -> Map<Pos, Field> {
        Map::new(|p: Pos| on_board(p), |p: Pos| self.fields[p.1 as int][p.0 as int])
    }
}

impl Board {
    /// The cell at square `p`; meaningful for squares on the board.
    pub open spec fn at(self, p: Pos) -> Field {
        self@[p]
    }
}

/// The square `p` of `b` holds no piece.
pub open spec fn empty_at(b: Board, p: Pos) -> bool {
    b.at(p) == Field::Empty
}

/// The square `p` of `b` holds a piece that does not belong to `c`.
pub open spec fn enemy_at(b: Board, p: Pos, c: Color) -> bool {
    match b.at(p) {
        Field::Empty => false,
        Field::Figure(f) => f.color != c,
    }
}

/// The square `p` of `b` holds a piece that belongs to `c`.
pub open spec fn friend_at(b: Board, p: Pos, c: Color) -> bool {
    match b.at(p) {
        Field::Empty => false,
        Field::Figure(f) => f.color == c,
    }
}

/// Two boards with the same cells on all squares are the same board.
pub proof fn lemma_board_ext(a: Board, b: Board)
    requires
        a@ == b@,
    ensures
        a == b,
{
    assert forall|y: int| 0 <= y < 8 implies a.fields[y] == b.fields[y] by {
        assert forall|x: int| 0 <= x < 8 implies a.fields[y][x] == b.fields[y][x] by {
            let p: Pos = (x as i32, y as i32);
            assert(a@[p] == a.fields[y][x]);
            assert(b@[p] == b.fields[y][x]);
        }
        assert(a.fields[y] =~= b.fields[y]);
    }
    assert(a.fields =~= b.fields);
}

/// Whether `p` is a square of the board: both its coordinates are in `0..=7`.
pub fn is_on_board(p: Pos) -> (r: bool)
    ensures
        r <==> 0 <= p.0 <= 7 && 0 <= p.1 <= 7,
        r == on_board(p),
{
    p.0 >= 0 && p.0 < 8 && p.1 >= 0 && p.1 < 8
}

/// Reads the cell in file `x` and rank `y`, which must be on the board.
pub fn board_index_xy(board: Board, x: i32, y: i32) -> (field: Field)
    requires
        on_board((x, y)),
    ensures
        field == board@[(x, y)],
{
    board.fields[y as usize][x as usize]
}

/// Reads the cell at `p`, which must be on the board.
pub fn board_index(board: Board, p: Pos) -> (field: Field)
    requires
        on_board(p),
    ensures
        field == board@[p],
{
    board_index_xy(board, p.0, p.1)
}

/// Overwrites the cell in file `x` and rank `y`, which must be on the board.
/// No other cell changes.
pub fn board_set_xy(board: &mut Board, x: i32, y: i32, field: Field)
    requires
        on_board((x, y)),
    ensures
        final(board)@ == old(board)@.insert((x, y), field),
{
    board.fields[y as usize][x as usize] = field;
    assert(board@ =~= old(board)@.insert((x, y), field));
}

/// Overwrites the cell at `p`, which must be on the board. No other cell
/// changes.
pub fn board_set(board: &mut Board, p: Pos, field: Field)
    requires
        on_board(p),
    ensures
        final(board)@ == old(board)@.insert(p, field),
{
    board_set_xy(board, p.0, p.1, field);
}

/// Whether the cell at `p`, which must be on the board, holds no piece.
pub fn is_empty(p: Pos, board: Board) -> (r: bool)
    requires
        on_board(p),
    ensures
        r == empty_at(board, p),
{
    board_index(board, p) == Field::Empty
}

/// Whether the cell at `p`, which must be on the board, holds a piece of
/// another colour than `color`. An empty cell holds no enemy.
pub fn is_enemy(p: Pos, color: Color, board: Board) -> (r: bool)
    requires
        on_board(p),
    ensures
        r == enemy_at(board, p, color),
{
    match board_index(board, p) {
        Field::Empty => false,
        Field::Figure(f) => f.color != color,
    }
}

} // verus!
