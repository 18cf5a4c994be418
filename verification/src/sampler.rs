//! The random legal-move sampler: it draws squares at random until a legal
//! move comes up or its budget of attempts is spent.
//!
//! The draws come from outside, so the sampler's own result is known only as
//! far as it holds of every draw. What the sampler does with each draw is
//! [`sampler_step`], which takes the draw as an argument and so says it all.

use vstd::prelude::*;
use crate::board::{Board, Move, on_board};
use crate::engine::{valid_move, board_move_is_valid, lemma_valid_move_displaces};

verus! {

/// The number of random moves that the sampler tries before it gives up.
pub const ATTEMPTS: u32 = 1000;

/// The move that stands for "no legal move found": from (0, 0) to (0, 0).
pub open spec fn no_move() -> Move {
    ((0, 0), (0, 0))
}

/// The board coordinate that a random byte stands for: its remainder modulo 8.
pub open spec fn coordinate_of(byte: u8) -> i32 {
    (byte % 8) as i32
}

/// No board allows the move that stands for "no legal move found", since it
/// goes nowhere. So a caller can always tell it from a move that was found.
pub proof fn lemma_no_move_is_not_valid(b: Board)
    ensures
        !valid_move(b, no_move()),
{
    if valid_move(b, no_move()) {
        lemma_valid_move_displaces(b, no_move());
    }
}

/// Calls `rand::random::<u8>()`, which draws a byte from the generator of the
/// current thread. Nothing is claimed of the byte that comes back. `rand`
/// panics where the operating system fails it: when the generator cannot be
/// seeded as a thread first uses it, when a later reseeding fails, and when
/// the handler that watches for forks cannot be registered.
#[verifier::external_body]
fn random_byte() -> (byte: u8) {
    rand::random::<u8>()
}

/// The move that four random bytes stand for: the file and rank of the source,
/// then the file and rank of the destination, each reduced modulo 8.
pub fn move_from_bytes(file_from: u8, rank_from: u8, file_to: u8, rank_to: u8) -> (m: Move)
    ensures
        m == (
            (coordinate_of(file_from), coordinate_of(rank_from)),
            (coordinate_of(file_to), coordinate_of(rank_to)),
        ),
        on_board(m.0),
        on_board(m.1),
{
    (((file_from % 8) as i32, (rank_from % 8) as i32), ((file_to % 8) as i32, (rank_to % 8) as i32))
}

/// Draws a move at random: four coordinates, each uniform over `0..8` and
/// independent of the others. The move is on the board; it need not be legal.
pub fn random_move() -> (m: Move)
    ensures
        on_board(m.0),
        on_board(m.1),
{
    let file_from: u8 = random_byte();
    let rank_from: u8 = random_byte();
    let file_to: u8 = random_byte();
    let rank_to: u8 = random_byte();
    move_from_bytes(file_from, rank_from, file_to, rank_to)
}

/// What the sampler does after a draw.
#[derive(PartialEq, Eq, Clone, Copy, Debug)]
pub enum Step {
    /// The drawn move is legal: it is the sampler's result.
    Found(Move),
    /// The drawn move is not legal and the budget is not spent: draw again.
    Again,
    /// The drawn move is not legal and it was the last of the budget: give up.
    GiveUp,
}

/// What the sampler does after its draw number `attempt`, counted from 0, has
/// given the move `drawn`.
pub open spec fn step_of(b: Board, attempt: u32, drawn: Move) -> Step {
    if valid_move(b, drawn) {
        Step::Found(drawn)
    } else if attempt + 1 < ATTEMPTS {
        Step::Again
    } else {
        Step::GiveUp
    }
}

/// The sampler's result when its draws from number `attempt` on are those of
/// `draws`: what the steps lead to, one draw after the other.
pub open spec fn sampled(b: Board, draws: Seq<Move>, attempt: int) -> Move
    decreases draws.len() - attempt,
{
    if 0 <= attempt < draws.len() && attempt < ATTEMPTS {
        match step_of(b, attempt as u32, draws[attempt]) {
            Step::Found(m) => m,
            Step::Again => sampled(b, draws, attempt + 1),
            Step::GiveUp => no_move(),
        }
    } else {
        no_move()
    }
}

/// Step by step the sampler comes to the first legal move of its draws: with
/// `ATTEMPTS` moves drawn, its result is the first of them that is legal, and
/// the move from (0, 0) to (0, 0) if none of them is.
pub proof fn lemma_sampled_is_first_legal(b: Board, draws: Seq<Move>, from: int)
    requires
        draws.len() == ATTEMPTS,
        0 <= from <= ATTEMPTS,
    ensures
        (forall|i: int| from <= i < ATTEMPTS ==> !valid_move(b, #[trigger] draws[i])) ==> sampled(
            b,
            draws,
            from,
        ) == no_move(),
        forall|i: int|
            from <= i < ATTEMPTS && valid_move(b, #[trigger] draws[i]) && (forall|j: int|
                from <= j < i ==> !valid_move(b, #[trigger] draws[j])) ==> sampled(b, draws, from)
                == draws[i],
    decreases ATTEMPTS - from,
{
    if from < ATTEMPTS && !valid_move(b, draws[from]) {
        lemma_sampled_is_first_legal(b, draws, from + 1);
        assert forall|i: int|
            from <= i < ATTEMPTS && valid_move(b, #[trigger] draws[i]) && (forall|j: int|
                from <= j < i ==> !valid_move(b, #[trigger] draws[j])) implies sampled(
            b,
            draws,
            from,
        ) == draws[i] by {
            assert(i > from);
            assert(forall|j: int| from + 1 <= j < i ==> !valid_move(b, #[trigger] draws[j]));
        }
    }
}

/// Decides what follows draw number `attempt`, counted from 0, which gave the
/// move `drawn`: a legal move is found; after an illegal one the sampler draws
/// again, unless that was the last of its `ATTEMPTS` draws.
pub fn sampler_step(board: &Board, attempt: u32, drawn: Move) -> (next: Step)
    ensures
        next == step_of(*board, attempt, drawn),
{
    if board_move_is_valid(board, drawn) {
        Step::Found(drawn)
    } else if attempt < ATTEMPTS - 1 {
        Step::Again
    } else {
        Step::GiveUp
    }
}

/// Draws random moves until one is legal on `board`, and returns it. After
/// `ATTEMPTS` draws without a legal move it gives up and returns the move from
/// (0, 0) to (0, 0), which is legal on no board.
pub fn board_random_move(board: &Board) -> (m: Move)
    ensures
        valid_move(*board, m) || m == no_move(),
        valid_move(*board, m) <==> m != no_move(),
        (forall|any: Move| !#[trigger] valid_move(*board, any)) ==> m == no_move(),
{
    proof {
        lemma_no_move_is_not_valid(*board);
    }
    let mut attempt: u32 = 0;
    loop
        invariant
            attempt < ATTEMPTS,
            !valid_move(*board, no_move()),
        decreases ATTEMPTS - attempt,
    {
        let drawn: Move = random_move();
        match sampler_step(board, attempt, drawn) {
            Step::Found(m) => {
                return m
            },
            Step::Again => {
                attempt = attempt + 1;
            },
            Step::GiveUp => {
                return ((0, 0), (0, 0))
            },
        }
    }
}

} // verus!
