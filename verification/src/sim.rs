//! The simulation orchestrator: owns the board, the snake and the apple,
//! advances the game once per logic tick, applies direction changes from
//! input, supports a full reset, and hands the presentation layer read-only
//! snapshots.

use vstd::prelude::*;
use crate::grid::{Board, Cell, Direction, SnakeState, lemma_free_cell_exists};
use crate::snake::Snake;
use crate::apple::Apple;

verus! {

/// An immutable view of one frame: the snake's cells (head first), the
/// apple's cell, the board dimensions, the pixel size of one cell, and the
/// liveness flag — all the presentation layer needs to draw.
pub struct Snapshot {
    pub cells: Vec<Cell>,
    pub apple: Cell,
    pub width: u32,
    pub height: u32,
    pub cell_size: u32,
    pub state: SnakeState,
}

/// The game: board configuration, snake, apple, and the configured pixel
/// size of a cell (carried only for the presentation layer).
pub struct Simulation {
    pub board: Board,
    pub snake: Snake,
    pub apple: Apple,
    pub cell_size: u32,
}

impl Simulation {
    /// The board is large enough for the initial snake and an apple, the
    /// snake is well-formed, and the apple sits on a cell the snake does
    /// not occupy.
    pub open spec fn wf(self) -> bool {
        &&& self.board.wf()
        &&& self.board.height >= 2
        &&& self.board.width * self.board.height >= 3
        &&& self.snake.wf(self.board)
        &&& self.board.contains_cell(self.apple.pos)
        &&& !self.snake.body@.contains(self.apple.pos)
    }

    /// Starts a game: the initial two-cell snake heading right, and an
    /// apple at a random cell the snake does not occupy.
    pub fn new(board: Board, cell_size: u32) -> (sim: Simulation)
        requires
            board.wf(),
            board.height >= 2,
            board.width * board.height >= 3,
        ensures
            sim.wf(),
            sim.board == board,
            sim.cell_size == cell_size,
            sim.snake.body@ == seq![Cell { x: 0, y: 0 }, Cell { x: 0, y: 1 }],
            sim.snake.dir == Direction::Right,
            sim.snake.state == SnakeState::Live,
            !sim.snake.body@.contains(sim.apple.pos),
    {
        let snake = Snake::new(board);
        let mut apple = Apple::new(board);
        proof {
            lemma_free_cell_exists(board, snake.body@);
        }
        apple.relocate(&snake.body, board);
        Simulation { board, snake, apple, cell_size }
    }

    /// One logic tick: a live snake advances one step (and may die, or eat
    /// and grow); a dead snake is frozen, so the tick is a no-op.
    pub fn tick(&mut self)
        requires
            old(self).wf(),
            // eating the apple must leave room for a fresh one: a snake
            // about to fill the board entirely is out of scope
            (old(self).snake.state == SnakeState::Live
                && old(self).board.spec_step(old(self).snake.body@[0], old(self).snake.dir)
                    == old(self).apple.pos) ==> old(self).snake.body@.len() + 1 < old(
                self,
            ).board.width * old(self).board.height,
        ensures
            final(self).wf(),
            final(self).board == old(self).board,
            final(self).cell_size == old(self).cell_size,
            final(self).snake.dir == old(self).snake.dir,
            old(self).snake.state == SnakeState::Dead ==> *final(self) == *old(self),
            old(self).snake.state == SnakeState::Live ==> ({
                let nh = old(self).board.spec_step(
                    old(self).snake.body@[0],
                    old(self).snake.dir,
                );
                if old(self).snake.body@.contains(nh) {
                    &&& final(self).snake.state == SnakeState::Dead
                    &&& final(self).snake.body@ == old(self).snake.body@
                    &&& final(self).apple == old(self).apple
                } else if nh == old(self).apple.pos {
                    &&& final(self).snake.state == SnakeState::Live
                    &&& final(self).snake.body@ == seq![nh] + old(self).snake.body@
                    &&& final(self).snake.body@.len() == old(self).snake.body@.len() + 1
                } else {
                    &&& final(self).snake.state == SnakeState::Live
                    &&& final(self).snake.body@ == seq![nh] + old(self).snake.body@.drop_last()
                    &&& final(self).snake.body@.len() == old(self).snake.body@.len()
                    &&& final(self).apple == old(self).apple
                }
            }),
    {
        if self.snake.state == SnakeState::Live {
            let board = self.board;
            let _state = self.snake.advance(&mut self.apple, board);
            proof {
                assert forall|i: int| 0 <= i < self.snake.body@.len()
                    implies self.snake.body@[i] != self.apple.pos by {
                    let nh = old(self).board.spec_step(
                        old(self).snake.body@[0],
                        old(self).snake.dir,
                    );
                    if !old(self).snake.body@.contains(nh) && nh != old(self).apple.pos {
                        if i > 0 && self.snake.body@[i] == self.apple.pos {
                            assert(self.snake.body@[i] == old(self).snake.body@[i - 1]);
                            assert(old(self).snake.body@.contains(self.apple.pos));
                        }
                    }
                }
            }
        }
    }

    /// Applies a requested heading to the snake, subject to the reversal
    /// guard: the exact opposite of the current heading is ignored.
    pub fn on_direction_input(&mut self, requested: Direction)
        ensures
            final(self).snake.dir == (if requested == old(self).snake.dir.spec_opposite() {
                old(self).snake.dir
            } else {
                requested
            }),
            final(self).snake.body@ == old(self).snake.body@,
            final(self).snake.state == old(self).snake.state,
            final(self).apple == old(self).apple,
            final(self).board == old(self).board,
            final(self).cell_size == old(self).cell_size,
            old(self).wf() ==> final(self).wf(),
    {
        self.snake.set_direction(requested);
    }

    /// Unconditional reset, permitted live or dead: discards snake and
    /// apple and recreates both initial states on the same board.
    pub fn on_reset_input(&mut self)
        requires
            old(self).board.wf(),
            old(self).board.height >= 2,
            old(self).board.width * old(self).board.height >= 3,
        ensures
            final(self).wf(),
            final(self).board == old(self).board,
            final(self).cell_size == old(self).cell_size,
            final(self).snake.body@ == seq![Cell { x: 0, y: 0 }, Cell { x: 0, y: 1 }],
            final(self).snake.body@.len() == 2,
            final(self).snake.dir == Direction::Right,
            final(self).snake.state == SnakeState::Live,
            !final(self).snake.body@.contains(final(self).apple.pos),
    {
        let board = self.board;
        let cell_size = self.cell_size;
        *self = Simulation::new(board, cell_size);
    }

    /// A read-only copy of the current frame's data.
    pub fn snapshot(&self) -> (snap: Snapshot)
        ensures
            snap.cells@ == self.snake.body@,
            snap.apple == self.apple.pos,
            snap.width == self.board.width,
            snap.height == self.board.height,
            snap.cell_size == self.cell_size,
            snap.state == self.snake.state,
    {
        let mut cells: Vec<Cell> = Vec::new();
        let n = self.snake.body.len();
        let mut i: usize = 0;
        while i < n
            invariant
                n == self.snake.body@.len(),
                i <= n,
                cells@ == self.snake.body@.take(i as int),
            decreases n - i,
        {
            cells.push(self.snake.body[i]);
            proof {
                assert(cells@ =~= self.snake.body@.take(i as int + 1));
            }
            i = i + 1;
        }
        proof {
            assert(cells@ =~= self.snake.body@);
        }
        Snapshot {
            cells,
            apple: self.apple.pos,
            width: self.board.width,
            height: self.board.height,
            cell_size: self.cell_size,
            state: self.snake.state,
        }
    }
}

} // verus!
