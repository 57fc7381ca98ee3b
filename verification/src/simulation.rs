//! The running game: the snake, the food, and the grid that mirrors them.

use crate::body::{cells, lemma_cells_concat, lemma_cells_within};
use crate::geometry::{Board, Cell, Direction, Point};
use crate::grid::{
    count, lemma_count_bound, lemma_count_full, lemma_count_none, lemma_count_update, GridOccupancy,
};
use crate::model::{Model, Step, TickOutcome, STARTING_LENGTH};
use crate::motion::{
    flags_after_move, lemma_advanced_wf, lemma_flags_after_move, lemma_fresh_wf, lemma_last_cell,
    lemma_moved, mirrors,
};
use crate::segment::Segment;
use rand::thread_rng;
use std::collections::VecDeque;
use vstd::prelude::*;

verus! {

/// A game of Snake on a board.
pub struct SnakeSimulation {
    grid: GridOccupancy,
    segments: VecDeque<Segment>,
    food: Option<Cell>,
    had_food: bool,
    new_direction: Option<Direction>,
}

impl View for SnakeSimulation {
    type V = Model;

    /// The state of the game.
    closed spec fn view(&self) -> Model {
        Model {
            board: self.grid.extent(),
            segments: self.segments@,
            food: self.food,
            grace: self.had_food,
            pending: self.new_direction,
        }
    }
}

impl SnakeSimulation {
    /// The flags of the occupancy grid, in row-major order.
    pub closed spec fn occupancy(&self) -> Seq<bool> {
        self.grid@
    }

    /// What holds of the simulation between any two calls: its state is
    /// valid, and the grid marks exactly the cells of the body, each once.
    pub open spec fn inv(&self) -> bool {
        &&& self@.wf()
        &&& self.occupancy().len() == self@.board.cell_total()
        &&& mirrors(self.occupancy(), self@.board, self@.cells())
        &&& count(self.occupancy()) == self@.cells().len()
    }

    /// Starts a game on `board`, which must be wide enough for the snake:
    /// the snake lies along the top row from the left edge, and food lies on
    /// a free cell drawn at random. Only on a board that the snake fills is
    /// there no food.
    pub fn new(board: Board) -> (s: Self)
        requires
            board.wf(),
            board.w() >= STARTING_LENGTH,
        ensures
            s.inv(),
            s@ == Model::fresh(board, s@.food),
            s@.food is None <==> board.cell_total() == STARTING_LENGTH,
    {
        let mut grid = GridOccupancy::new(board);
        proof {
            lemma_count_none(grid@);
        }
        let mut x: usize = 0;
        while x < STARTING_LENGTH
            invariant
                x <= STARTING_LENGTH,
                board.wf(),
                board.w() >= STARTING_LENGTH,
                grid.inv(),
                grid.extent() == board,
                count(grid@) == x,
                forall|i: int| 0 <= i < grid@.len() ==> (grid@[i] <==> i < x),
            decreases STARTING_LENGTH - x,
        {
            let cell = Cell { x, y: 0 };
            proof {
                board.lemma_index_in_range(cell.pos());
                assert(board.index(cell.pos()) == x) by (nonlinear_arith)
                    requires
                        board.index(cell.pos()) == 0 * board.w() + x,
                ;
                lemma_count_update(grid@, x as int, true);
            }
            grid.set(cell, true);
            x += 1;
        }
        let mut segments: VecDeque<Segment> = VecDeque::new();
        segments.push_back(
            Segment {
                start: Cell { x: STARTING_LENGTH - 1, y: 0 },
                direction: Direction::East,
                len: STARTING_LENGTH,
            },
        );
        let mut s = SnakeSimulation { grid, segments, food: None, had_food: false, new_direction: None };
        proof {
            assert(s@.segments =~= Model::fresh(board, None).segments);
            assert(s@ == Model::fresh(board, None));
            lemma_fresh_wf(board, None);
            let body = s@.cells();
            assert forall|p: Point| board.contains(p) implies (s.occupancy()[board.index(p)]
                <==> #[trigger] body.contains(p)) by {
                board.lemma_index_in_range(p);
                let w = board.w();
                assert(p.y * w + p.x < 5 <==> p.y == 0 && p.x < 5) by (nonlinear_arith)
                    requires
                        w >= 5,
                        0 <= p.x < w,
                        0 <= p.y,
                ;
                if p.y == 0 && p.x < 5 {
                    assert(body[4 - p.x] == p);
                }
            }
        }
        proof {
            s.lemma_full();
        }
        s.spawn_food();
        s
    }

    /// Puts food on a free cell drawn at random, in place of any food that
    /// lies out. Returns whether there was a free cell.
    pub fn spawn_food(&mut self) -> (placed: bool)
        requires
            old(self).inv(),
        ensures
            final(self).inv(),
            final(self)@ == (Model { food: final(self)@.food, ..old(self)@ }),
            final(self).occupancy() == old(self).occupancy(),
            placed == final(self)@.food is Some,
            placed <==> !old(self)@.covers_board(),
    {
        let mut rng = thread_rng();
        let choice = self.grid.pick_random_free_cell(&mut rng);
        proof {
            old(self).lemma_full();
        }
        self.food = choice;
        choice.is_some()
    }

    /// Puts the food on `cell` if that is a cell of the board that the snake
    /// does not cover, and says whether it did.
    pub fn place_food(&mut self, cell: Cell) -> (placed: bool)
        requires
            old(self).inv(),
        ensures
            final(self).inv(),
            placed == old(self)@.free(cell),
            final(self)@ == (if placed {
                Model { food: Some(cell), ..old(self)@ }
            } else {
                old(self)@
            }),
            final(self).occupancy() == old(self).occupancy(),
    {
        if self.grid.board().holds(cell) && !self.grid.is_occupied(cell) {
            self.food = Some(cell);
            true
        } else {
            false
        }
    }

    /// Starts the game over on the same board, as [`SnakeSimulation::new`]
    /// starts it.
    pub fn game_over(&mut self)
        requires
            old(self).inv(),
        ensures
            final(self).inv(),
            final(self)@ == Model::fresh(old(self)@.board, final(self)@.food),
            final(self)@.food is None <==> old(self)@.board.cell_total() == STARTING_LENGTH,
    {
        let board = self.grid.board();
        *self = SnakeSimulation::new(board);
    }

    /// Asks for a turn on the next tick. The request is taken up when no
    /// turn is pending and `direction` is orthogonal to the way the head
    /// travels; otherwise it is dropped.
    pub fn submit_turn(&mut self, direction: Direction)
        requires
            old(self).inv(),
        ensures
            final(self).inv(),
            final(self)@ == old(self)@.with_turn(direction),
            final(self).occupancy() == old(self).occupancy(),
    {
        if self.new_direction.is_none() && direction.is_orthogonal_to(self.segments[0].direction) {
            self.new_direction = Some(direction);
        }
    }

    /// Moves the snake by one cell, without putting out food and without
    /// starting over: the head goes on in the pending direction, or straight
    /// on if none is pending, and the tail follows unless the snake has just
    /// eaten. Whether the head runs into the body is judged with the tail
    /// moved on, so the head may enter the cell that the tail leaves in this
    /// move. A move off the board or into the body is a crash and changes
    /// nothing.
    pub fn advance(&mut self) -> (step: Step)
        requires
            old(self).inv(),
        ensures
            final(self).inv(),
            step == old(self)@.step(),
            final(self)@ == old(self)@.advanced(),
    {
        let ghost m = self@;
        let ghost flags = self.occupancy();
        let board = self.grid.board();
        let head = self.segments[0];
        let heading = match self.new_direction {
            Some(d) => d,
            None => head.direction,
        };
        proof {
            assert(head.within(m.board));
            lemma_last_cell(m.segments, m.board);
            m.board.lemma_dims();
        }
        let head_start = match board.neighbor(head.start, heading) {
            Some(cell) => cell,
            None => {
                return Step::Crashed;
            },
        };
        let tail = self.segments[self.segments.len() - 1];
        proof {
            assert(tail == m.segments.last());
            assert(tail.within(m.board));
            tail.lemma_within_fits(m.board);
        }
        let tail_end = tail.end();
        let vacated = !self.had_food && head_start.x == tail_end.x && head_start.y == tail_end.y;
        let hit = self.grid.is_occupied(head_start) && !vacated;
        proof {
            let body = m.cells();
            let nh = m.next_head();
            assert(nh == head_start.pos());
            assert(body.last() == tail_end.pos());
            m.board.lemma_index_in_range(nh);
            assert(flags[m.board.index(nh)] <==> body.contains(nh));
            if !m.grace {
                if body.drop_last().contains(nh) {
                    let i = choose|i: int| 0 <= i < body.drop_last().len() && body.drop_last()[i] == nh;
                    assert(body[i] == nh);
                } else if body.contains(nh) {
                    let i = choose|i: int| 0 <= i < body.len() && body[i] == nh;
                    if i < body.len() - 1 {
                        assert(body.drop_last()[i] == nh);
                    }
                }
            }
            assert(hit == m.kept().contains(nh));
        }
        if hit {
            return Step::Crashed;
        }
        proof {
            lemma_moved(m);
            lemma_advanced_wf(m);
        }
        match self.new_direction {
            Some(d) => {
                self.segments.push_front(Segment::new(head_start, d));
                self.new_direction = None;
            },
            None => {
                self.segments.pop_front();
                self.segments.push_front(
                    Segment { start: head_start, direction: head.direction, len: head.len + 1 },
                );
            },
        }
        assert(self.segments@ =~= m.grown());
        if self.had_food {
            self.had_food = false;
        } else {
            let last = self.segments.pop_back();
            proof {
                m.board.lemma_index_in_range(tail_end.pos());
            }
            self.grid.set(tail_end, false);
            if let Some(run) = last {
                if run.len > 1 {
                    self.segments.push_back(
                        Segment { start: run.start, direction: run.direction, len: run.len - 1 },
                    );
                }
            }
        }
        assert(self.segments@ =~= m.moved());
        proof {
            m.board.lemma_index_in_range(head_start.pos());
        }
        self.grid.set(head_start, true);
        let fed = match self.food {
            Some(f) => f.x == head_start.x && f.y == head_start.y,
            None => false,
        };
        if fed {
            self.food = None;
            self.had_food = true;
        }
        proof {
            assert(self@ == m.advanced());
            assert(self.occupancy() == flags_after_move(m, flags));
            lemma_flags_after_move(m, flags);
        }
        if fed {
            Step::Fed
        } else {
            Step::Moved
        }
    }

    /// Advances the game by one step of time: moves the snake, puts out new
    /// food on a free cell drawn at random when the snake has eaten, and
    /// starts the game over when it has crashed. The outcome and the state
    /// after the tick are those of the model; only where the new food lies
    /// is left to chance. There is new food unless the snake covers the
    /// board.
    pub fn tick(&mut self) -> (outcome: TickOutcome)
        requires
            old(self).inv(),
        ensures
            final(self).inv(),
            outcome == old(self)@.outcome(),
            final(self)@ == old(self)@.ticked(final(self)@.food),
            outcome != TickOutcome::Advanced ==> (final(self)@.food is None
                <==> final(self)@.covers_board()),
    {
        proof {
            lemma_fresh_wf(self@.board, None);
        }
        match self.advance() {
            Step::Moved => TickOutcome::Advanced,
            Step::Fed => {
                if self.spawn_food() {
                    TickOutcome::AteFood
                } else {
                    TickOutcome::BoardFull
                }
            },
            Step::Crashed => {
                self.game_over();
                proof {
                    self.lemma_full();
                }
                TickOutcome::GameOver
            },
        }
    }

    /// The board that the game is played on.
    pub fn board(&self) -> (b: Board)
        ensures
            b == self@.board,
    {
        self.grid.board()
    }

    /// The body, head first.
    pub fn segments(&self) -> (body: &VecDeque<Segment>)
        ensures
            body@ == self@.segments,
    {
        &self.segments
    }

    /// The cell on which the food lies, if any lies out.
    pub fn food(&self) -> (f: Option<Cell>)
        ensures
            f == self@.food,
    {
        self.food
    }

    /// The cell of the head.
    pub fn head(&self) -> (c: Cell)
        requires
            self.inv(),
        ensures
            c.pos() == self@.head(),
            c == self@.segments[0].start,
    {
        self.segments[0].start
    }

    /// The turn that the next tick will take, if one was asked for.
    pub fn pending_turn(&self) -> (d: Option<Direction>)
        ensures
            d == self@.pending,
    {
        self.new_direction
    }

    /// Whether the snake ate on the last tick.
    pub fn had_food(&self) -> (g: bool)
        ensures
            g == self@.grace,
    {
        self.had_food
    }

    /// Tells whether the snake covers `cell`. A cell off the board is never
    /// covered.
    pub fn is_occupied(&self, cell: Cell) -> (r: bool)
        requires
            self.inv(),
        ensures
            r == self@.cells().contains(cell.pos()),
            r ==> self@.board.contains(cell.pos()),
    {
        proof {
            lemma_cells_within(self@.segments, self@.board);
        }
        if self.grid.board().holds(cell) {
            self.grid.is_occupied(cell)
        } else {
            proof {
                if self@.cells().contains(cell.pos()) {
                    let i = choose|i: int| 0 <= i < self@.cells().len() && self@.cells()[i] == cell.pos();
                    assert(self@.board.contains(self@.cells()[i]));
                }
            }
            false
        }
    }

    /// The number of cells that the snake covers.
    pub fn len(&self) -> (n: usize)
        requires
            self.inv(),
        ensures
            n == self@.cells().len(),
    {
        let ghost segs = self.segments@;
        proof {
            lemma_count_bound(self.occupancy());
            assert(segs.take(0) =~= Seq::<Segment>::empty());
        }
        let mut n: usize = 0;
        let mut i: usize = 0;
        while i < self.segments.len()
            invariant
                i <= segs.len(),
                segs == self.segments@,
                n == cells(segs.take(i as int)).len(),
                cells(segs).len() <= usize::MAX,
            decreases segs.len() - i,
        {
            proof {
                let next = segs.take(i + 1);
                assert(next.drop_last() =~= segs.take(i as int));
                assert(next.last() == segs[i as int]);
                assert(segs =~= next + segs.skip(i + 1));
                lemma_cells_concat(next, segs.skip(i + 1));
            }
            n += self.segments[i].len;
            i += 1;
        }
        proof {
            assert(segs.take(i as int) =~= segs);
        }
        n
    }

    /// The grid is full exactly when the body covers the board.
    proof fn lemma_full(&self)
        requires
            self.inv(),
        ensures
            self.grid.inv(),
            self.grid.full() <==> self@.covers_board(),
            self@.covers_board() <==> self@.cells().len() == self@.board.cell_total(),
    {
        let board = self@.board;
        let flags = self.occupancy();
        let body = self@.cells();
        lemma_count_full(flags);
        if self.grid.full() {
            assert forall|p: Point| board.contains(p) implies #[trigger] body.contains(p) by {
                board.lemma_index_in_range(p);
            }
        }
        if self@.covers_board() {
            assert forall|i: int| 0 <= i < flags.len() implies flags[i] by {
                board.lemma_point_at(i);
                assert(body.contains(board.point_at(i)));
            }
        }
    }
}

} // verus!
