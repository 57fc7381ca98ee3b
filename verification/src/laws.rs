//! What holds of every game, whatever its course.
//!
//! A game starts in a state that meets [`SnakeSimulation::inv`], and every
//! operation keeps it, so what follows from it holds before and after every
//! tick. The laws about a single tick are stated of the model that the
//! operations are specified by.

use crate::body::lemma_cells_within;
use crate::geometry::{Board, Cell, Direction, Point};
use crate::grid::{count, lemma_count_full};
use crate::model::{Model, TickOutcome, STARTING_LENGTH};
use crate::motion::{lemma_advanced_wf, lemma_fresh_wf, lemma_last_cell, lemma_moved};
use crate::simulation::SnakeSimulation;
use vstd::prelude::*;

verus! {

/// The points of the board that the grid of a simulation marks as covered.
pub open spec fn marked(sim: &SnakeSimulation) -> Set<Point> {
    Set::new(|p: Point| sim@.board.contains(p) && sim.occupancy()[sim@.board.index(p)])
}

/// In a valid state, and so in every state of a simulation, every cell of
/// the snake lies on the board.
pub proof fn law_containment(m: Model)
    requires
        m.wf(),
    ensures
        forall|i: int| 0 <= i < m.cells().len() ==> m.board.contains(#[trigger] m.cells()[i]),
{
    lemma_cells_within(m.segments, m.board);
}

/// Between any two calls the cells that the grid marks are exactly the cells
/// of the snake, no cell of the snake occurs twice, and so the grid marks as
/// many cells as the snake is long.
pub proof fn law_grid_is_body(sim: &SnakeSimulation)
    requires
        sim.inv(),
    ensures
        marked(sim) == sim@.cells().to_set(),
        sim@.cells().no_duplicates(),
        count(sim.occupancy()) == sim@.cells().len(),
{
    let body = sim@.cells();
    lemma_cells_within(sim@.segments, sim@.board);
    assert forall|p: Point| marked(sim).contains(p) <==> body.to_set().contains(p) by {
        if body.contains(p) {
            let i = choose|i: int| 0 <= i < body.len() && body[i] == p;
            assert(sim@.board.contains(body[i]));
        }
    }
    assert(marked(sim) =~= body.to_set());
}

/// Food lies on a cell of the board that the snake does not cover and the
/// grid does not mark.
pub proof fn law_food_off_snake(sim: &SnakeSimulation)
    requires
        sim.inv(),
    ensures
        sim@.food matches Some(f) ==> {
            &&& sim@.board.contains(f.pos())
            &&& !sim@.cells().contains(f.pos())
            &&& !marked(sim).contains(f.pos())
        },
{
}

/// The snake covers the board exactly when it is as long as the board has
/// cells.
pub proof fn law_full_board(sim: &SnakeSimulation)
    requires
        sim.inv(),
    ensures
        sim@.covers_board() <==> sim@.cells().len() == sim@.board.cell_total(),
{
    let board = sim@.board;
    let flags = sim.occupancy();
    let body = sim@.cells();
    lemma_count_full(flags);
    if body.len() == board.cell_total() {
        assert forall|p: Point| board.contains(p) implies #[trigger] body.contains(p) by {
            board.lemma_index_in_range(p);
        }
    }
    if sim@.covers_board() {
        assert forall|i: int| 0 <= i < flags.len() implies flags[i] by {
            board.lemma_point_at(i);
            assert(body.contains(board.point_at(i)));
        }
    }
}

/// A move that does not crash puts the cell that the head enters in front of
/// the cells that the body keeps.
pub proof fn law_move_shifts_body(m: Model)
    requires
        m.wf(),
        !m.crashes(),
    ensures
        m.advanced().cells() == seq![m.next_head()] + m.kept(),
        m.advanced().head() == m.next_head(),
        m.advanced().segments[0].direction == m.heading(),
{
    lemma_moved(m);
}

/// A tick makes a valid state of a valid state, wherever the new food lies,
/// if it lies free.
pub proof fn law_tick_keeps_valid(m: Model, food: Option<Cell>)
    requires
        m.wf(),
        food matches Some(f) ==> m.ticked(None).free(f),
    ensures
        m.ticked(food).wf(),
{
    lemma_advanced_wf(m);
    if m.crashes() {
        lemma_fresh_wf(m.board, None);
        lemma_fresh_wf(m.board, food);
    }
}

/// A tick on which the snake does not crash leaves it as long as it was,
/// unless it ate on the tick before: then it is longer by one cell. The
/// snake has eaten on a tick exactly when the tick ends as `AteFood` or
/// `BoardFull`.
pub proof fn law_growth(m: Model, food: Option<Cell>)
    requires
        m.wf(),
        !m.crashes(),
    ensures
        m.ticked(food).cells().len() == m.cells().len() + (if m.grace { 1int } else { 0int }),
        m.ticked(food).grace == (m.outcome() == TickOutcome::AteFood || m.outcome()
            == TickOutcome::BoardFull),
{
    lemma_moved(m);
    lemma_last_cell(m.segments, m.board);
}

/// A meal shows one tick late: after a tick that ends as `AteFood` and the
/// tick that follows it, if the snake does not crash on that one, the snake
/// is longer by one cell than it was after the first.
pub proof fn law_growth_follows_meal(m: Model, first: Option<Cell>, second: Option<Cell>)
    requires
        m.wf(),
        m.outcome() == TickOutcome::AteFood,
        first matches Some(f) ==> m.ticked(None).free(f),
        !m.ticked(first).crashes(),
    ensures
        m.ticked(first).ticked(second).cells().len() == m.ticked(first).cells().len() + 1,
{
    law_tick_keeps_valid(m, first);
    law_growth(m.ticked(first), second);
}

/// When the tail moves on a tick, the head may enter the cell that the tail
/// leaves: that is no crash.
pub proof fn law_tail_pass_through(m: Model)
    requires
        m.wf(),
        !m.grace,
        m.next_head() == m.cells().last(),
    ensures
        !m.crashes(),
        m.outcome() != TickOutcome::GameOver,
{
    let body = m.cells();
    lemma_last_cell(m.segments, m.board);
    lemma_cells_within(m.segments, m.board);
    assert(m.board.contains(body[body.len() - 1]));
    if body.drop_last().contains(body.last()) {
        let i = choose|i: int| 0 <= i < body.drop_last().len() && body.drop_last()[i] == body.last();
        assert(body[i] == body[body.len() - 1]);
    }
}

/// Of two requests to turn that are made with no tick between them, only
/// the first that is orthogonal to the head's direction takes effect, and a
/// tick leaves no request pending.
pub proof fn law_turn_debounce(m: Model, first: Direction, second: Direction, food: Option<Cell>)
    requires
        m.pending is None,
    ensures
        m.with_turn(first).with_turn(second) == (Model {
            pending: if first.orthogonal(m.segments[0].direction) {
                Some(first)
            } else if second.orthogonal(m.segments[0].direction) {
                Some(second)
            } else {
                None
            },
            ..m
        }),
        m.ticked(food).pending is None,
{
}

/// What can happen to a game.
pub enum Event {
    /// A request to turn.
    Turn(Direction),
    /// A tick, with the food that was put out on it, if any was.
    Tick(Option<Cell>),
}

/// The state that an event makes of a state.
pub open spec fn after(m: Model, event: Event) -> Model {
    match event {
        Event::Turn(direction) => m.with_turn(direction),
        Event::Tick(food) => m.ticked(food),
    }
}

/// The state after a course of events.
pub open spec fn course(start: Model, events: Seq<Event>) -> Model
    decreases events.len(),
{
    if events.len() == 0 {
        start
    } else {
        after(course(start, events.drop_last()), events.last())
    }
}

/// Food is only ever put out on a free cell.
pub open spec fn fair(start: Model, events: Seq<Event>) -> bool {
    forall|i: int|
        0 <= i < events.len() ==> (#[trigger] events[i] matches Event::Tick(Some(f)) ==> course(
            start,
            events.take(i),
        ).ticked(None).free(f))
}

/// Every state that a game can reach from its start, by turns and ticks in
/// any order, is valid: the snake lies on the board, its segments join end
/// to start, no cell of it occurs twice, and the food lies off it.
pub proof fn law_reachable_states_are_valid(board: Board, food: Option<Cell>, events: Seq<Event>)
    requires
        board.wf(),
        board.w() >= STARTING_LENGTH,
        food matches Some(f) ==> Model::fresh(board, None).free(f),
        fair(Model::fresh(board, food), events),
    ensures
        course(Model::fresh(board, food), events).wf(),
    decreases events.len(),
{
    let start = Model::fresh(board, food);
    if events.len() == 0 {
        lemma_fresh_wf(board, food);
    } else {
        let before = events.drop_last();
        assert forall|i: int| 0 <= i < before.len() implies (#[trigger] before[i] matches Event::Tick(
            Some(f),
        ) ==> course(start, before.take(i)).ticked(None).free(f)) by {
            assert(before[i] == events[i]);
            assert(before.take(i) =~= events.take(i));
        }
        law_reachable_states_are_valid(board, food, before);
        let m = course(start, before);
        assert(events.take(events.len() - 1) =~= before);
        match events.last() {
            Event::Turn(_) => {},
            Event::Tick(f) => {
                assert(events[events.len() - 1] == events.last());
                law_tick_keeps_valid(m, f);
            },
        }
    }
}

} // verus!
