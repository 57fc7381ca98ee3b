//! Cells, directions and the board they live on.

use vstd::prelude::*;

verus! {

/// A position on the integer plane; unlike a [`Cell`] it may lie off the board.
pub struct Point {
    pub x: int,
    pub y: int,
}

impl Point {
    /// The cell at this point; meaningful for points with coordinates in
    /// `usize`.
    pub open spec fn cell(self) -> Cell {
        Cell { x: self.x as usize, y: self.y as usize }
    }
}

/// One square of the board, counted from the top left corner.
#[derive(Clone, Copy, Debug, PartialEq, Eq, Structural)]
pub struct Cell {
    pub x: usize,
    pub y: usize,
}

impl Cell {
    /// The cell as a point of the plane.
    pub open spec fn pos(self) -> Point {
        Point { x: self.x as int, y: self.y as int }
    }
}

/// The four ways the snake can travel. North is towards row zero.
#[derive(Clone, Copy, Debug, PartialEq, Eq, Structural)]
pub enum Direction {
    North,
    East,
    South,
    West,
}

impl Direction {
    /// The direction runs along a row.
    pub open spec fn horizontal(self) -> bool {
        self == Direction::East || self == Direction::West
    }

    /// Two directions are orthogonal when one runs along a row and the other
    /// along a column.
    pub open spec fn orthogonal(self, other: Direction) -> bool {
        self.horizontal() != other.horizontal()
    }

    /// The point one step from `p` in this direction.
    pub open spec fn step(self, p: Point) -> Point {
        match self {
            Direction::North => Point { x: p.x, y: p.y - 1 },
            Direction::East => Point { x: p.x + 1, y: p.y },
            Direction::South => Point { x: p.x, y: p.y + 1 },
            Direction::West => Point { x: p.x - 1, y: p.y },
        }
    }

    /// The point `k` steps from `p` against this direction.
    pub open spec fn back(self, p: Point, k: int) -> Point {
        match self {
            Direction::North => Point { x: p.x, y: p.y + k },
            Direction::East => Point { x: p.x - k, y: p.y },
            Direction::South => Point { x: p.x, y: p.y - k },
            Direction::West => Point { x: p.x + k, y: p.y },
        }
    }

    /// Tells whether the direction runs along a row.
    pub fn is_horizontal(self) -> (r: bool)
        ensures
            r == self.horizontal(),
    {
        match self {
            Direction::East => true,
            Direction::West => true,
            Direction::North => false,
            Direction::South => false,
        }
    }

    /// Tells whether one of the two directions runs along a row and the
    /// other along a column.
    pub fn is_orthogonal_to(self, other: Direction) -> (r: bool)
        ensures
            r == self.orthogonal(other),
    {
        self.is_horizontal() != other.is_horizontal()
    }
}

/// The dimensions of the playing field, in cells.
#[derive(Clone, Copy, Debug, PartialEq, Eq)]
pub struct Board {
    width: usize,
    height: usize,
}

impl Board {
    /// The number of columns.
    pub closed spec fn w(self) -> int {
        self.width as int
    }

    /// The number of rows.
    pub closed spec fn h(self) -> int {
        self.height as int
    }

    /// A board has at least one cell, and its cells can be numbered in `usize`.
    pub open spec fn wf(self) -> bool {
        &&& self.w() > 0
        &&& self.h() > 0
        &&& self.w() * self.h() <= usize::MAX
    }

    /// The number of cells.
    pub open spec fn cell_total(self) -> int {
        self.w() * self.h()
    }

    /// The point lies on the board.
    pub open spec fn contains(self, p: Point) -> bool {
        0 <= p.x < self.w() && 0 <= p.y < self.h()
    }

    /// The row-major number of a point.
    pub open spec fn index(self, p: Point) -> int {
        p.y * self.w() + p.x
    }

    /// The point with a given row-major number.
    pub open spec fn point_at(self, i: int) -> Point {
        Point { x: i % self.w(), y: i / self.w() }
    }

    /// Returns the board of the given size, or `None` when it would be empty
    /// or hold more cells than `usize` can count.
    pub fn new(width: usize, height: usize) -> (b: Option<Board>)
        ensures
            b is Some <==> width > 0 && height > 0 && width * height <= usize::MAX,
            b matches Some(board) ==> board.wf() && board.w() == width && board.h() == height,
    {
        if width == 0 || height == 0 {
            return None;
        }
        match width.checked_mul(height) {
            Some(_) => Some(Board { width, height }),
            None => None,
        }
    }

    /// The number of columns.
    pub fn width(&self) -> (r: usize)
        ensures
            r == self.w(),
    {
        self.width
    }

    /// The number of rows.
    pub fn height(&self) -> (r: usize)
        ensures
            r == self.h(),
    {
        self.height
    }

    /// The number of cells.
    pub fn cell_count(&self) -> (r: usize)
        requires
            self.wf(),
        ensures
            r == self.cell_total(),
    {
        self.width * self.height
    }

    /// Tells whether a cell lies on the board.
    pub fn holds(&self, cell: Cell) -> (r: bool)
        ensures
            r == self.contains(cell.pos()),
    {
        cell.x < self.width && cell.y < self.height
    }

    /// The row-major number of a cell of the board.
    pub fn to_index(&self, position: Cell) -> (index: usize)
        requires
            self.wf(),
            self.contains(position.pos()),
        ensures
            index == self.index(position.pos()),
            index < self.cell_total(),
    {
        proof {
            self.lemma_index_in_range(position.pos());
            assert(position.y * self.width >= 0) by (nonlinear_arith)
                requires
                    position.y >= 0,
                    self.width >= 0,
            ;
        }
        position.y * self.width + position.x
    }

    /// The cell with a given row-major number.
    pub fn to_position(&self, index: usize) -> (cell: Cell)
        requires
            self.wf(),
            index < self.cell_total(),
        ensures
            cell.pos() == self.point_at(index as int),
            self.contains(cell.pos()),
    {
        proof {
            self.lemma_point_at(index as int);
        }
        Cell { x: index % self.width, y: index / self.width }
    }

    /// The cell one step from `cell` in `direction`, unless that step leaves
    /// the board.
    pub fn neighbor(&self, cell: Cell, direction: Direction) -> (n: Option<Cell>)
        ensures
            n is Some <==> self.contains(direction.step(cell.pos())),
            n matches Some(c) ==> c.pos() == direction.step(cell.pos()),
    {
        match direction {
            Direction::North => if cell.y > 0 && cell.y <= self.height && cell.x < self.width {
                Some(Cell { x: cell.x, y: cell.y - 1 })
            } else {
                None
            },
            Direction::East => if cell.x < usize::MAX && cell.x + 1 < self.width && cell.y
                < self.height {
                Some(Cell { x: cell.x + 1, y: cell.y })
            } else {
                None
            },
            Direction::South => if cell.y < usize::MAX && cell.y + 1 < self.height && cell.x
                < self.width {
                Some(Cell { x: cell.x, y: cell.y + 1 })
            } else {
                None
            },
            Direction::West => if cell.x > 0 && cell.x <= self.width && cell.y < self.height {
                Some(Cell { x: cell.x - 1, y: cell.y })
            } else {
                None
            },
        }
    }

    /// A point of the board is the position of a cell.
    pub proof fn lemma_cell_of_point(self, p: Point)
        requires
            self.contains(p),
        ensures
            p.cell().pos() == p,
    {
    }

    /// Width and height are machine integers.
    pub proof fn lemma_dims(self)
        ensures
            0 <= self.w() <= usize::MAX,
            0 <= self.h() <= usize::MAX,
    {
    }

    /// Every point of the board has a number below the cell count.
    pub proof fn lemma_index_in_range(self, p: Point)
        requires
            self.contains(p),
        ensures
            0 <= self.index(p) < self.cell_total(),
    {
        let w = self.w();
        let h = self.h();
        assert(0 <= p.y * w + p.x < w * h) by (nonlinear_arith)
            requires
                0 <= p.x < w,
                0 <= p.y < h,
        ;
    }

    /// Two points of the board with the same number are the same point.
    pub proof fn lemma_index_injective(self, p: Point, q: Point)
        requires
            self.contains(p),
            self.contains(q),
            self.index(p) == self.index(q),
        ensures
            p == q,
    {
        let w = self.w();
        assert(p.y == q.y && p.x == q.x) by (nonlinear_arith)
            requires
                0 <= p.x < w,
                0 <= q.x < w,
                p.y * w + p.x == q.y * w + q.x,
        ;
    }

    /// Every number below the cell count belongs to a point of the board,
    /// and that point has this number.
    pub proof fn lemma_point_at(self, i: int)
        requires
            self.w() > 0,
            0 <= i < self.cell_total(),
        ensures
            self.contains(self.point_at(i)),
            self.index(self.point_at(i)) == i,
    {
        let w = self.w();
        let h = self.h();
        assert(0 <= i % w < w && 0 <= i / w < h && (i / w) * w + i % w == i) by (nonlinear_arith)
            requires
                w > 0,
                0 <= i < w * h,
        ;
    }
}

} // verus!
