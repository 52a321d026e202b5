//! The snake state machine: a deque of cells (head at the front), a current
//! heading, and a liveness state. One `advance` per logic tick moves the
//! head one wrapped step, kills the snake on self-collision, and grows it
//! when it reaches the apple.

use vstd::prelude::*;
use std::collections::VecDeque;
use crate::grid::{Board, Cell, Direction, SnakeState, lemma_free_cell_exists};
use crate::apple::Apple;

verus! {

/// Whether `c` occurs among the cells of `body`.
pub fn body_contains(body: &VecDeque<Cell>, c: Cell) -> (r: bool)
    ensures
        r == body@.contains(c),
{
    let n = body.len();
    let mut i: usize = 0;
    while i < n
        invariant
            n == body@.len(),
            i <= n,
            forall|k: int| 0 <= k < i ==> body@[k] != c,
        decreases n - i,
    {
        if body[i] == c {
            assert(body@[i as int] == c);
            return true;
        }
        i = i + 1;
    }
    false
}

/// Prepending a cell that is absent from a duplicate-free sequence keeps it
/// duplicate-free.
proof fn lemma_push_front_distinct(s: Seq<Cell>, c: Cell)
    requires
        s.no_duplicates(),
        !s.contains(c),
    ensures
        (seq![c] + s).no_duplicates(),
{
    let t = seq![c] + s;
    assert forall|i: int, j: int|
        0 <= i < t.len() && 0 <= j < t.len() && i != j implies t[i] != t[j] by {
        if i == 0 {
            assert(t[j] == s[j - 1]);
            assert(s.contains(s[j - 1]));
        } else if j == 0 {
            assert(t[i] == s[i - 1]);
            assert(s.contains(s[i - 1]));
        } else {
            assert(t[i] == s[i - 1] && t[j] == s[j - 1]);
        }
    }
}

/// Dropping the last cell of a duplicate-free sequence keeps it
/// duplicate-free, and introduces no cell that was absent.
proof fn lemma_drop_last_distinct(s: Seq<Cell>, c: Cell)
    requires
        s.len() >= 1,
        s.no_duplicates(),
        !s.contains(c),
    ensures
        s.drop_last().no_duplicates(),
        !s.drop_last().contains(c),
{
    assert forall|i: int| 0 <= i < s.drop_last().len() implies s.drop_last()[i] != c by {
        assert(s.drop_last()[i] == s[i]);
        assert(s.contains(s[i]));
    }
}

/// The snake: body cells ordered head first, the current heading, and the
/// liveness state. Once `Dead`, the snake is frozen until a reset.
pub struct Snake {
    pub body: VecDeque<Cell>,
    pub dir: Direction,
    pub state: SnakeState,
}

impl Snake {
    /// Every body cell lies within the board (the wraparound invariant).
    pub open spec fn on_board(self, board: Board) -> bool {
        forall|i: int| 0 <= i < self.body@.len() ==> board.contains_cell(#[trigger] self.body@[i])
    }

    /// Well-formedness: the body is never empty, stays on the board, and
    /// never holds the same cell twice.
    pub open spec fn wf(self, board: Board) -> bool {
        &&& self.body@.len() >= 1
        &&& self.on_board(board)
        &&& self.body@.no_duplicates()
    }

    /// The initial snake: two cells starting at the origin, heading right,
    /// alive.
    pub fn new(board: Board) -> (s: Snake)
        requires
            board.wf(),
            board.height >= 2,
        ensures
            s.body@ == seq![Cell { x: 0, y: 0 }, Cell { x: 0, y: 1 }],
            s.dir == Direction::Right,
            s.state == SnakeState::Live,
            s.wf(board),
    {
        let mut body: VecDeque<Cell> = VecDeque::new();
        body.push_back(Cell { x: 0, y: 0 });
        body.push_back(Cell { x: 0, y: 1 });
        proof {
            assert(body@ =~= seq![Cell { x: 0, y: 0 }, Cell { x: 0, y: 1 }]);
        }
        Snake { body, dir: Direction::Right, state: SnakeState::Live }
    }

    /// Tests a candidate head cell against the current body: `Dead` exactly
    /// when the cell is already occupied.
    pub fn hit_self(&self, new_head: Cell) -> (r: SnakeState)
        ensures
            r == (if self.body@.contains(new_head) { SnakeState::Dead } else {
                SnakeState::Live
            }),
    {
        if body_contains(&self.body, new_head) {
            SnakeState::Dead
        } else {
            SnakeState::Live
        }
    }

    /// Applies a requested heading, ignoring it when it is the exact
    /// reverse of the current one (the reversal guard); body and liveness
    /// are untouched.
    pub fn set_direction(&mut self, requested: Direction)
        ensures
            final(self).dir == (if requested == old(self).dir.spec_opposite() {
                old(self).dir
            } else {
                requested
            }),
            final(self).body@ == old(self).body@,
            final(self).state == old(self).state,
    {
        if requested != self.dir.opposite() {
            self.dir = requested;
        }
    }

    /// One movement step. The head is shifted one wrapped unit along the
    /// current heading; if the resulting cell is already in the body (as it
    /// stands before the move, tail included), the snake dies and the body
    /// is left unchanged. Otherwise the new head is pushed on; reaching the
    /// apple relocates it and keeps the tail (the snake grows by one),
    /// while any other move drops the tail (the snake only moves).
    pub fn advance(&mut self, apple: &mut Apple, board: Board) -> (r: SnakeState)
        requires
            board.wf(),
            old(self).wf(board),
            old(self).state == SnakeState::Live,
            // eating the apple must leave room for a fresh one: a snake
            // about to fill the board entirely is out of scope
            board.spec_step(old(self).body@[0], old(self).dir) == old(apple).pos
                ==> old(self).body@.len() + 1 < board.width * board.height,
        ensures
            final(self).wf(board),
            final(self).dir == old(self).dir,
            r == final(self).state,
            ({
                let nh = board.spec_step(old(self).body@[0], old(self).dir);
                if old(self).body@.contains(nh) {
                    &&& final(self).state == SnakeState::Dead
                    &&& final(self).body@ == old(self).body@
                    &&& *final(apple) == *old(apple)
                } else if nh == old(apple).pos {
                    &&& final(self).state == SnakeState::Live
                    &&& final(self).body@ == seq![nh] + old(self).body@
                    &&& final(self).body@.len() == old(self).body@.len() + 1
                    &&& board.contains_cell(final(apple).pos)
                    &&& !final(self).body@.contains(final(apple).pos)
                } else {
                    &&& final(self).state == SnakeState::Live
                    &&& final(self).body@ == seq![nh] + old(self).body@.drop_last()
                    &&& final(self).body@.len() == old(self).body@.len()
                    &&& *final(apple) == *old(apple)
                }
            }),
    {
        let head: Cell = self.body[0];
        let new_head = board.step(head, self.dir);
        match self.hit_self(new_head) {
            SnakeState::Live => {
                proof {
                    lemma_push_front_distinct(self.body@, new_head);
                }
                self.body.push_front(new_head);
                proof {
                    assert forall|i: int| 0 <= i < self.body@.len() implies board.contains_cell(
                        #[trigger] self.body@[i],
                    ) by {
                        if i > 0 {
                            assert(board.contains_cell(old(self).body@[i - 1]));
                        }
                    }
                }
                if new_head == apple.pos {
                    proof {
                        lemma_free_cell_exists(board, self.body@);
                    }
                    apple.relocate(&self.body, board);
                } else {
                    proof {
                        lemma_drop_last_distinct(old(self).body@, new_head);
                        lemma_push_front_distinct(old(self).body@.drop_last(), new_head);
                    }
                    let _tail = self.body.pop_back();
                    proof {
                        assert(self.body@ =~= seq![new_head] + old(self).body@.drop_last());
                        assert forall|i: int| 0 <= i < self.body@.len() implies board.contains_cell(
                            #[trigger] self.body@[i],
                        ) by {
                            if i > 0 {
                                assert(board.contains_cell(old(self).body@[i - 1]));
                            }
                        }
                    }
                }
                SnakeState::Live
            },
            SnakeState::Dead => {
                self.state = SnakeState::Dead;
                SnakeState::Dead
            },
        }
    }
}

} // verus!
