//! The move engine: it validates a move against the board and the rule of the
//! piece that is to move, and applies a validated move to the board.
//!
//! The engine does not ask whose turn it is, nor whether the move leaves a
//! king in check: any piece of either colour may make any move of its shape.

use vstd::prelude::*;
use crate::board::{Board, Field, Move, Pos, on_board, is_on_board, board_index, board_set};
use crate::pieces::{figure_move, figure_move_is_valid, lemma_figure_move_displaces};

verus! {

/// The move `m` is legal on board `b`: both its endpoints are on the board, a
/// piece stands on its source, and the rule of that piece's kind allows it.
pub open spec fn valid_move(b: Board, m: Move) -> bool {
    &&& on_board(m.0)
    &&& on_board(m.1)
    &&& b.at(m.0) matches Field::Figure(figure) && figure_move(figure, m, b)
}

/// A legal move ends on another square than it starts from.
pub proof fn lemma_valid_move_displaces(b: Board, m: Move)
    requires
        valid_move(b, m),
    ensures
        m.0 != m.1,
{
    if let Field::Figure(figure) = b.at(m.0) {
        lemma_figure_move_displaces(figure, m, b);
    }
}

/// The cells of a board after a piece has gone from the source of `m` to its
/// destination: the destination holds what the source held, and the source is
/// empty. What stood on the destination is gone.
pub open spec fn after_move(cells: Map<Pos, Field>, m: Move) -> Map<Pos, Field> {
    cells.insert(m.1, cells[m.0]).insert(m.0, Field::Empty)
}

/// Whether the move is legal on the board: both endpoints are on the board, a
/// piece stands on the source, and the rule of its kind allows the move. Whose
/// turn it is does not matter.
pub fn board_move_is_valid(board: &Board, move_: Move) -> (r: bool)
    ensures
        r == valid_move(*board, move_),
{
    let (s, d) = move_;
    if !is_on_board(s) || !is_on_board(d) {
        return false
    }
    let field = board_index(*board, s);
    if let Field::Figure(figure) = field {
        if figure_move_is_valid(figure, move_, *board) {
            return true
        }
    }
    false
}

/// Makes the move if it is legal: the piece on the source square goes to the
/// destination, replacing whatever stood there, and the source is left empty.
/// An illegal move changes nothing.
pub fn board_apply_move(board: &mut Board, move_: Move)
    ensures
        !valid_move(*old(board), move_) ==> *final(board) == *old(board),
        valid_move(*old(board), move_) ==> {
            &&& final(board)@ == after_move(old(board)@, move_)
            &&& final(board)@[move_.1] == old(board)@[move_.0]
            &&& final(board)@[move_.0] == Field::Empty
        },
{
    if board_move_is_valid(board, move_) {
        proof {
            lemma_valid_move_displaces(*board, move_);
        }
        let field = board_index(*board, move_.0);
        board_set(board, move_.1, field);
        board_set(board, move_.0, Field::Empty);
    }
}

} // verus!
