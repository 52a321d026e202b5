//! Apple placement: a single target cell, relocated by rejection sampling
//! so that it never coincides with a cell occupied by the snake's body.

use vstd::prelude::*;
use std::collections::VecDeque;
use rand::RngCore;
use crate::grid::{Board, Cell};
use crate::snake::body_contains;

verus! {

/// Draws one 32-bit value from the thread-local random number generator.
/// Relies on rand::thread_rng and rand::RngCore::next_u32; nothing can be
/// promised of a random value, so the contract is empty.
#[verifier::external_body]
fn random_u32() -> u32 {
    rand::thread_rng().next_u32()
}

/// The apple: a single cell the snake grows by reaching.
pub struct Apple {
    pub pos: Cell,
}

impl Apple {
    /// Draws a fresh uniformly random position on the board, with no
    /// forbidden set. The draw on each axis is reduced modulo the board
    /// dimension, so the result always lies on the board.
    pub fn generate_new_pos(&mut self, board: Board)
        requires
            board.wf(),
        ensures
            board.contains_cell(final(self).pos),
    {
        let x = random_u32() % board.width;
        let y = random_u32() % board.height;
        self.pos = Cell { x, y };
    }

    /// Places a new apple on the board at a random position (any cell of an
    /// otherwise empty board is valid).
    pub fn new(board: Board) -> (a: Apple)
        requires
            board.wf(),
        ensures
            board.contains_cell(a.pos),
    {
        let mut apple = Apple { pos: Cell { x: 0, y: 0 } };
        apple.generate_new_pos(board);
        apple
    }

    /// Redraws the apple's position by rejection sampling until it avoids
    /// every cell in `forbidden`; if the random draws keep colliding, a
    /// deterministic sweep picks the first free cell, so placement always
    /// terminates. A free cell must exist: a forbidden set covering the
    /// whole board is out of scope. On return the position is on the board
    /// and unoccupied.
    pub fn relocate(&mut self, forbidden: &VecDeque<Cell>, board: Board)
        requires
            board.wf(),
            exists|c: Cell| board.contains_cell(c) && !forbidden@.contains(c),
        ensures
            board.contains_cell(final(self).pos),
            !forbidden@.contains(final(self).pos),
    {
        let mut attempts: u32 = 0;
        while attempts < MAX_RANDOM_ATTEMPTS
            invariant
                board.wf(),
            decreases MAX_RANDOM_ATTEMPTS - attempts,
        {
            self.generate_new_pos(board);
            if !body_contains(forbidden, self.pos) {
                return;
            }
            attempts = attempts + 1;
        }
        self.pos = first_free_cell(forbidden, board);
    }
}

/// How many random draws to try before falling back to a sweep.
const MAX_RANDOM_ATTEMPTS: u32 = 10000;

/// The first cell in row-major order that is absent from `forbidden`.
fn first_free_cell(forbidden: &VecDeque<Cell>, board: Board) -> (r: Cell)
    requires
        board.wf(),
        exists|c: Cell| board.contains_cell(c) && !forbidden@.contains(c),
    ensures
        board.contains_cell(r),
        !forbidden@.contains(r),
{
    let mut y: u32 = 0;
    while y < board.height
        invariant
            board.wf(),
            y <= board.height,
            forall|c: Cell|
                board.contains_cell(c) && c.y < y ==> #[trigger] forbidden@.contains(c),
        decreases board.height - y,
    {
        let mut x: u32 = 0;
        while x < board.width
            invariant
                board.wf(),
                y < board.height,
                x <= board.width,
                forall|c: Cell|
                    board.contains_cell(c) && c.y < y ==> #[trigger] forbidden@.contains(c),
                forall|c: Cell|
                    board.contains_cell(c) && c.y == y && c.x < x ==> #[trigger] forbidden@.contains(
                        c,
                    ),
            decreases board.width - x,
        {
            let cand = Cell { x, y };
            if !body_contains(forbidden, cand) {
                return cand;
            }
            proof {
                assert forall|c: Cell|
                    board.contains_cell(c) && c.y == y && c.x < x + 1 implies #[trigger] forbidden@.contains(
                    c,
                ) by {
                    if c.x == x {
                        assert(c == cand);
                    }
                }
            }
            x = x + 1;
        }
        y = y + 1;
    }
    proof {
        let c0 = choose|c: Cell| board.contains_cell(c) && !forbidden@.contains(c);
        assert(forbidden@.contains(c0));
        assert(false);
    }
    Cell { x: 0, y: 0 }
}

} // verus!
