//! The toroidal coordinate space: board dimensions, cells, and headings.

use vstd::prelude::*;
use vstd::set_lib::{set_int_range, lemma_int_range, lemma_len_subset};

verus! {

/// One of the four headings the snake can travel in.
#[derive(Clone, Copy, PartialEq, Eq, Structural, Debug)]
pub enum Direction {
    Up,
    Down,
    Left,
    Right,
}

impl Direction {
    /// The exact reverse of this heading.
    pub open spec fn spec_opposite(self) -> Direction {
        match self {
            Direction::Up => Direction::Down,
            Direction::Down => Direction::Up,
            Direction::Left => Direction::Right,
            Direction::Right => Direction::Left,
        }
    }

    pub fn opposite(self) -> (r: Direction)
        ensures
            r == self.spec_opposite(),
    {
        match self {
            Direction::Up => Direction::Down,
            Direction::Down => Direction::Up,
            Direction::Left => Direction::Right,
            Direction::Right => Direction::Left,
        }
    }
}

/// Liveness of the snake: once `Dead`, the snake is frozen until a reset.
#[derive(Clone, Copy, PartialEq, Eq, Structural, Debug)]
pub enum SnakeState {
    Dead,
    Live,
}

/// A grid cell, identified by its column `x` and row `y`.
/// Coordinates are kept reduced modulo the board dimensions.
#[derive(Clone, Copy, PartialEq, Eq, Structural, Debug)]
pub struct Cell {
    pub x: u32,
    pub y: u32,
}

/// Immutable board configuration: the grid is `width` by `height` cells,
/// with wraparound on both axes.
#[derive(Clone, Copy, PartialEq, Eq, Structural, Debug)]
pub struct Board {
    pub width: u32,
    pub height: u32,
}

impl Board {
    /// A board must have at least one cell on each axis.
    pub open spec fn wf(self) -> bool {
        self.width >= 1 && self.height >= 1
    }

    /// `c` lies within `[0, width) x [0, height)`.
    pub open spec fn contains_cell(self, c: Cell) -> bool {
        c.x < self.width && c.y < self.height
    }

    pub fn new(width: u32, height: u32) -> (b: Board)
        requires
            width >= 1,
            height >= 1,
        ensures
            b == (Board { width, height }),
            b.wf(),
    {
        Board { width, height }
    }

    /// The cell one unit from `c` in direction `d`, wrapped modulo the
    /// board dimension on the moved axis.
    pub open spec fn spec_step(self, c: Cell, d: Direction) -> Cell {
        match d {
            Direction::Left => Cell {
                x: if c.x == 0 { (self.width - 1) as u32 } else { (c.x - 1) as u32 },
                y: c.y,
            },
            Direction::Right => Cell {
                x: if c.x + 1 == self.width { 0 } else { (c.x + 1) as u32 },
                y: c.y,
            },
            Direction::Up => Cell {
                x: c.x,
                y: if c.y == 0 { (self.height - 1) as u32 } else { (c.y - 1) as u32 },
            },
            Direction::Down => Cell {
                x: c.x,
                y: if c.y + 1 == self.height { 0 } else { (c.y + 1) as u32 },
            },
        }
    }

    /// Toroidal step: moving off one edge reappears on the opposite edge.
    pub fn step(self, c: Cell, d: Direction) -> (r: Cell)
        requires
            self.wf(),
            self.contains_cell(c),
        ensures
            r == self.spec_step(c, d),
            self.contains_cell(r),
    {
        match d {
            Direction::Left => Cell {
                x: if c.x == 0 { self.width - 1 } else { c.x - 1 },
                y: c.y,
            },
            Direction::Right => Cell {
                x: if c.x + 1 == self.width { 0 } else { c.x + 1 },
                y: c.y,
            },
            Direction::Up => Cell {
                x: c.x,
                y: if c.y == 0 { self.height - 1 } else { c.y - 1 },
            },
            Direction::Down => Cell {
                x: c.x,
                y: if c.y + 1 == self.height { 0 } else { c.y + 1 },
            },
        }
    }

    /// Row-major index of a cell: `y * width + x`.
    pub open spec fn cell_index(self, c: Cell) -> int {
        c.y * self.width + c.x
    }

    /// The cell with the given row-major index.
    pub open spec fn cell_of_index(self, idx: int) -> Cell {
        Cell {
            x: (idx % (self.width as int)) as u32,
            y: (idx / (self.width as int)) as u32,
        }
    }
}

/// Distinct on-board cells have distinct row-major indices.
proof fn lemma_cell_index_injective(board: Board, c1: Cell, c2: Cell)
    requires
        board.wf(),
        board.contains_cell(c1),
        board.contains_cell(c2),
        c1 != c2,
    ensures
        board.cell_index(c1) != board.cell_index(c2),
{
    let w = board.width as int;
    assert(c1.y as int * w + c1.x != c2.y as int * w + c2.x) by (nonlinear_arith)
        requires
            0 <= c1.x < w,
            0 <= c2.x < w,
            !(c1.x == c2.x && c1.y == c2.y),
    ;
}

/// Row-major indexing is onto: each index in range names an on-board cell.
proof fn lemma_cell_of_index(board: Board, idx: int)
    requires
        board.wf(),
        0 <= idx < board.width * board.height,
    ensures
        board.contains_cell(board.cell_of_index(idx)),
        board.cell_index(board.cell_of_index(idx)) == idx,
{
    let w = board.width as int;
    let h = board.height as int;
    assert(0 <= idx % w < w && 0 <= idx / w < h && (idx / w) * w + idx % w == idx)
        by (nonlinear_arith)
        requires
            w >= 1,
            h >= 1,
            0 <= idx < w * h,
    ;
}

/// Pigeonhole: a duplicate-free family of on-board cells that is smaller
/// than the board leaves at least one cell of the board unoccupied.
pub proof fn lemma_free_cell_exists(board: Board, s: Seq<Cell>)
    requires
        board.wf(),
        s.no_duplicates(),
        forall|i: int| 0 <= i < s.len() ==> board.contains_cell(#[trigger] s[i]),
        s.len() < board.width * board.height,
    ensures
        exists|c: Cell| board.contains_cell(c) && !s.contains(c),
{
    let w = board.width as int;
    let h = board.height as int;
    let n = w * h;
    let t = s.map_values(|c: Cell| board.cell_index(c));
    assert forall|i: int, j: int|
        0 <= i < t.len() && 0 <= j < t.len() && i != j implies t[i] != t[j] by {
        lemma_cell_index_injective(board, s[i], s[j]);
    }
    t.unique_seq_to_set();
    lemma_int_range(0, n);
    if forall|c: Cell| board.contains_cell(c) ==> #[trigger] s.contains(c) {
        assert forall|idx: int| set_int_range(0, n).contains(idx)
            implies t.to_set().contains(idx) by {
            let c = board.cell_of_index(idx);
            lemma_cell_of_index(board, idx);
            assert(s.contains(c));
            let k = choose|k: int| 0 <= k < s.len() && s[k] == c;
            assert(t[k] == board.cell_index(s[k]));
            assert(t[k] == idx);
            assert(t.contains(idx));
        }
        lemma_len_subset(set_int_range(0, n), t.to_set());
        assert(false);
    }
}

} // verus!
