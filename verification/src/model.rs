//! The simulation as a mathematical object: what a state is, which states
//! are valid, and what one tick makes of a state.

use crate::body::{cells, contiguous, within};
use crate::geometry::{Board, Cell, Direction, Point};
use crate::segment::Segment;
use vstd::prelude::*;

verus! {

/// The number of cells of the snake at the start of a game.
pub const STARTING_LENGTH: usize = 5;

/// How one move of the snake ended.
#[derive(Clone, Copy, Debug, PartialEq, Eq, Structural)]
pub enum Step {
    /// The head took a free cell that held no food.
    Moved,
    /// The head took the cell of the food.
    Fed,
    /// The head would have left the board or run into the body; nothing moved.
    Crashed,
}

/// How one tick of the simulation ended.
#[derive(Clone, Copy, Debug, PartialEq, Eq, Structural)]
pub enum TickOutcome {
    /// The snake moved by one cell.
    Advanced,
    /// The snake moved onto the food, and new food was put out.
    AteFood,
    /// The snake ran into a wall or into itself, and the game started over.
    GameOver,
    /// The snake moved onto the food and now covers the whole board, so no
    /// new food could be put out.
    BoardFull,
}

/// A state of the simulation.
pub struct Model {
    /// The board that the game is played on.
    pub board: Board,
    /// The body, head first.
    pub segments: Seq<Segment>,
    /// The cell on which the food lies, if any lies out.
    pub food: Option<Cell>,
    /// The snake ate on the last tick, so its tail stays where it is on the
    /// next one.
    pub grace: bool,
    /// The turn to take on the next tick.
    pub pending: Option<Direction>,
}

impl Model {
    /// The points that the body covers, from the head to the tail.
    pub open spec fn cells(self) -> Seq<Point> {
        cells(self.segments)
    }

    /// The point of the head.
    pub open spec fn head(self) -> Point {
        self.segments[0].start.pos()
    }

    /// The direction of the next move.
    pub open spec fn heading(self) -> Direction {
        match self.pending {
            Some(d) => d,
            None => self.segments[0].direction,
        }
    }

    /// Where the next move takes the head.
    pub open spec fn next_head(self) -> Point {
        self.heading().step(self.head())
    }

    /// The cells that the body still covers when the head arrives: all of
    /// them after a meal, all but the last otherwise.
    pub open spec fn kept(self) -> Seq<Point> {
        if self.grace {
            self.cells()
        } else {
            self.cells().drop_last()
        }
    }

    /// The next move leaves the board or runs into the body.
    pub open spec fn crashes(self) -> bool {
        !self.board.contains(self.next_head()) || self.kept().contains(self.next_head())
    }

    /// The next move takes the head onto the food.
    pub open spec fn eats(self) -> bool {
        self.food matches Some(f) && f.pos() == self.next_head()
    }

    /// The body with the head moved on: a pending turn starts a segment of
    /// one cell, otherwise the first segment grows by one.
    pub open spec fn grown(self) -> Seq<Segment> {
        let start = self.next_head().cell();
        match self.pending {
            Some(d) => seq![Segment { start, direction: d, len: 1 }] + self.segments,
            None => self.segments.update(
                0,
                Segment {
                    start,
                    direction: self.segments[0].direction,
                    len: (self.segments[0].len + 1) as usize,
                },
            ),
        }
    }

    /// A body without its last cell: the last segment shrinks by one, and
    /// goes when nothing is left of it.
    pub open spec fn retracted(segments: Seq<Segment>) -> Seq<Segment> {
        let tail = segments.last();
        if tail.len <= 1 {
            segments.drop_last()
        } else {
            segments.drop_last().push(
                Segment { start: tail.start, direction: tail.direction, len: (tail.len - 1) as usize },
            )
        }
    }

    /// The body after the next move.
    pub open spec fn moved(self) -> Seq<Segment> {
        if self.grace {
            self.grown()
        } else {
            Self::retracted(self.grown())
        }
    }

    /// How the next move ends.
    pub open spec fn step(self) -> Step {
        if self.crashes() {
            Step::Crashed
        } else if self.eats() {
            Step::Fed
        } else {
            Step::Moved
        }
    }

    /// The state after the next move. A crash changes nothing. Food that was
    /// eaten is gone.
    pub open spec fn advanced(self) -> Model {
        if self.crashes() {
            self
        } else {
            Model {
                board: self.board,
                segments: self.moved(),
                food: if self.eats() {
                    None
                } else {
                    self.food
                },
                grace: self.eats(),
                pending: None,
            }
        }
    }

    /// The state at the start of a game: one segment along the top row, its
    /// head at column `STARTING_LENGTH - 1`, heading east.
    pub open spec fn fresh(board: Board, food: Option<Cell>) -> Model {
        Model {
            board,
            segments: seq![
                Segment {
                    start: Cell { x: (STARTING_LENGTH - 1) as usize, y: 0 },
                    direction: Direction::East,
                    len: STARTING_LENGTH,
                },
            ],
            food,
            grace: false,
            pending: None,
        }
    }

    /// The body covers every cell of the board.
    pub open spec fn covers_board(self) -> bool {
        forall|p: Point| self.board.contains(p) ==> #[trigger] self.cells().contains(p)
    }

    /// How the next tick ends.
    pub open spec fn outcome(self) -> TickOutcome {
        if self.crashes() {
            TickOutcome::GameOver
        } else if !self.eats() {
            TickOutcome::Advanced
        } else if self.advanced().covers_board() {
            TickOutcome::BoardFull
        } else {
            TickOutcome::AteFood
        }
    }

    /// The state after the next tick, given the food that was put out in its
    /// course, if any was: a crash starts the game over, a meal brings new
    /// food, and a plain move leaves the food alone.
    pub open spec fn ticked(self, food: Option<Cell>) -> Model {
        if self.crashes() {
            Self::fresh(self.board, food)
        } else if self.eats() {
            Model { food, ..self.advanced() }
        } else {
            self.advanced()
        }
    }

    /// The state after a request to turn: it is taken up when no turn is
    /// pending and the new direction is orthogonal to the head's, and dropped
    /// otherwise.
    pub open spec fn with_turn(self, direction: Direction) -> Model {
        if self.pending is None && direction.orthogonal(self.segments[0].direction) {
            Model { pending: Some(direction), ..self }
        } else {
            self
        }
    }

    /// A spot where food may lie: on the board and off the snake.
    pub open spec fn free(self, cell: Cell) -> bool {
        self.board.contains(cell.pos()) && !self.cells().contains(cell.pos())
    }

    /// The valid states.
    pub open spec fn wf(self) -> bool {
        &&& self.board.wf()
        &&& self.board.w() >= STARTING_LENGTH
        &&& self.segments.len() >= 1
        &&& within(self.segments, self.board)
        &&& contiguous(self.segments)
        &&& self.cells().no_duplicates()
        &&& (self.pending matches Some(d) ==> d.orthogonal(self.segments[0].direction))
        &&& (self.food matches Some(f) ==> self.free(f))
    }
}

} // verus!
