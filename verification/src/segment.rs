//! A straight run of the snake's body.

use crate::geometry::{Board, Cell, Direction, Point};
use vstd::prelude::*;

verus! {

/// A straight run of `len` cells. `start` is the cell nearest the head; the
/// others follow it against `direction`, the way the run travels.
#[derive(Clone, Copy, Debug, PartialEq, Eq, Structural)]
pub struct Segment {
    pub start: Cell,
    pub direction: Direction,
    pub len: usize,
}

impl Segment {
    /// The `k`-th point of the run, counted from `start` towards the tail.
    pub open spec fn cell(self, k: int) -> Point {
        self.direction.back(self.start.pos(), k)
    }

    /// The points that the run covers, nearest the head first.
    pub open spec fn cells(self) -> Seq<Point> {
        Seq::new(self.len as nat, |k: int| self.cell(k))
    }

    /// The point just past the tail-ward end of the run.
    pub open spec fn behind(self) -> Point {
        self.cell(self.len as int)
    }

    /// The run is not empty and its last cell has coordinates in `usize`.
    pub open spec fn fits(self) -> bool {
        let last = self.cell(self.len - 1);
        &&& self.len >= 1
        &&& 0 <= last.x <= usize::MAX
        &&& 0 <= last.y <= usize::MAX
    }

    /// The run is not empty and both of its ends lie on the board.
    pub open spec fn within(self, board: Board) -> bool {
        &&& self.len >= 1
        &&& board.contains(self.cell(0))
        &&& board.contains(self.cell(self.len - 1))
    }

    /// A run of one cell.
    pub fn new(start: Cell, direction: Direction) -> (s: Segment)
        ensures
            s == (Segment { start, direction, len: 1 }),
    {
        Segment { start, direction, len: 1 }
    }

    /// Tells whether the run has a last cell: whether it is not empty and
    /// stays on the quarter of the plane that cells can name.
    pub fn has_end(&self) -> (r: bool)
        ensures
            r == self.fits(),
    {
        if self.len == 0 {
            return false;
        }
        let k: usize = self.len - 1;
        match self.direction {
            Direction::North => k <= usize::MAX - self.start.y,
            Direction::East => k <= self.start.x,
            Direction::South => k <= self.start.y,
            Direction::West => k <= usize::MAX - self.start.x,
        }
    }

    /// The last cell of the run, the one nearest the tail.
    pub fn end(&self) -> (c: Cell)
        requires
            self.fits(),
        ensures
            c.pos() == self.cell(self.len - 1),
    {
        let k: usize = self.len - 1;
        match self.direction {
            Direction::North => Cell { x: self.start.x, y: self.start.y + k },
            Direction::East => Cell { x: self.start.x - k, y: self.start.y },
            Direction::South => Cell { x: self.start.x, y: self.start.y - k },
            Direction::West => Cell { x: self.start.x + k, y: self.start.y },
        }
    }

    /// A run whose ends lie on the board lies on it as a whole.
    pub proof fn lemma_within(self, board: Board, k: int)
        requires
            self.within(board),
            0 <= k < self.len,
        ensures
            board.contains(self.cell(k)),
    {
    }

    /// A run on a board is no longer than the board is wide or high.
    pub proof fn lemma_within_fits(self, board: Board)
        requires
            self.within(board),
        ensures
            self.fits(),
            self.len <= board.w() || self.len <= board.h(),
    {
        board.lemma_dims();
    }
}

} // verus!
