use snek::geometry::{Board, Cell, Direction};
use snek::model::{Step, TickOutcome, STARTING_LENGTH};
use snek::segment::Segment;
use snek::simulation::SnakeSimulation;

fn game_20_by_15() -> SnakeSimulation {
    SnakeSimulation::new(Board::new(20, 15).unwrap())
}

fn body_cells(sim: &SnakeSimulation) -> Vec<Cell> {
    let mut cells = Vec::new();
    for run in sim.segments().iter() {
        let mut cell = run.start;
        for k in 0..run.len {
            cells.push(cell);
            if k + 1 < run.len {
                cell = match run.direction {
                    Direction::North => Cell { x: cell.x, y: cell.y + 1 },
                    Direction::East => Cell { x: cell.x - 1, y: cell.y },
                    Direction::South => Cell { x: cell.x, y: cell.y - 1 },
                    Direction::West => Cell { x: cell.x + 1, y: cell.y },
                };
            }
        }
    }
    cells
}

fn cells_of(pairs: &[(usize, usize)]) -> Vec<Cell> {
    pairs.iter().map(|&(x, y)| Cell { x, y }).collect()
}

fn free_cell_count(sim: &SnakeSimulation) -> usize {
    let board = sim.board();
    let mut free = 0;
    for index in 0..board.cell_count() {
        if !sim.is_occupied(board.to_position(index)) {
            free += 1;
        }
    }
    free
}

#[test]
fn new_game_lays_the_snake_along_the_top_row() {
    let sim = game_20_by_15();
    assert_eq!(STARTING_LENGTH, 5);
    assert_eq!(sim.board(), Board::new(20, 15).unwrap());
    assert_eq!(sim.segments().len(), 1);
    assert_eq!(
        sim.segments()[0],
        Segment { start: Cell { x: 4, y: 0 }, direction: Direction::East, len: 5 }
    );
    assert_eq!(sim.head(), Cell { x: 4, y: 0 });
    assert_eq!(sim.len(), 5);
    assert_eq!(body_cells(&sim), cells_of(&[(4, 0), (3, 0), (2, 0), (1, 0), (0, 0)]));
    assert_eq!(sim.pending_turn(), None);
    assert!(!sim.had_food());
    assert_eq!(free_cell_count(&sim), 295);
}

#[test]
fn new_game_puts_food_on_a_free_cell() {
    for _ in 0..200 {
        let sim = game_20_by_15();
        let food = sim.food().unwrap();
        assert!(sim.board().holds(food));
        assert!(!sim.is_occupied(food));
        assert!(!(food.y == 0 && food.x < 5));
    }
}

#[test]
fn new_game_on_a_board_that_the_snake_fills_has_no_food() {
    let mut sim = SnakeSimulation::new(Board::new(5, 1).unwrap());
    assert_eq!(sim.food(), None);
    assert_eq!(sim.len(), 5);
    assert_eq!(free_cell_count(&sim), 0);
    assert!(!sim.spawn_food());
    assert_eq!(sim.tick(), TickOutcome::GameOver);
    assert_eq!(sim.food(), None);
    assert_eq!(sim.head(), Cell { x: 4, y: 0 });
}

#[test]
fn new_game_on_the_narrowest_board_with_a_free_cell() {
    let sim = SnakeSimulation::new(Board::new(6, 1).unwrap());
    assert_eq!(sim.food(), Some(Cell { x: 5, y: 0 }));
}

#[test]
fn first_tick_moves_the_snake_east() {
    let mut sim = game_20_by_15();
    // Keep the food out of the way of the first move.
    assert!(sim.place_food(Cell { x: 10, y: 10 }));
    assert_eq!(sim.head(), Cell { x: 4, y: 0 });
    assert_eq!(sim.len(), 5);

    let outcome = sim.tick();

    assert_eq!(outcome, TickOutcome::Advanced);
    assert_eq!(sim.head(), Cell { x: 5, y: 0 });
    assert_eq!(sim.segments().len(), 1);
    assert_eq!(
        sim.segments()[0],
        Segment { start: Cell { x: 5, y: 0 }, direction: Direction::East, len: 5 }
    );
    assert_eq!(sim.segments()[0].end(), Cell { x: 1, y: 0 });
    assert_eq!(sim.len(), 5);
    assert_eq!(body_cells(&sim), cells_of(&[(5, 0), (4, 0), (3, 0), (2, 0), (1, 0)]));
    assert!(!sim.is_occupied(Cell { x: 0, y: 0 }));
    assert!(sim.is_occupied(Cell { x: 5, y: 0 }));
    assert_eq!(sim.food(), Some(Cell { x: 10, y: 10 }));
    assert!(!sim.had_food());
}

#[test]
fn turn_north_from_the_top_row_ends_the_game() {
    let mut sim = game_20_by_15();
    assert!(sim.place_food(Cell { x: 10, y: 10 }));
    assert_eq!(sim.tick(), TickOutcome::Advanced);
    assert_eq!(sim.head(), Cell { x: 5, y: 0 });

    sim.submit_turn(Direction::North);
    assert_eq!(sim.pending_turn(), Some(Direction::North));

    assert_eq!(sim.tick(), TickOutcome::GameOver);
    assert_eq!(sim.segments().len(), 1);
    assert_eq!(
        sim.segments()[0],
        Segment { start: Cell { x: 4, y: 0 }, direction: Direction::East, len: 5 }
    );
    assert_eq!(sim.head(), Cell { x: 4, y: 0 });
    assert_eq!(sim.len(), 5);
    assert_eq!(sim.pending_turn(), None);
    assert!(!sim.had_food());
    assert_eq!(body_cells(&sim), cells_of(&[(4, 0), (3, 0), (2, 0), (1, 0), (0, 0)]));
    assert_eq!(free_cell_count(&sim), 295);
    let food = sim.food().unwrap();
    assert!(!sim.is_occupied(food));
}

#[test]
fn eating_brings_new_food_and_growth_one_tick_later() {
    let mut sim = game_20_by_15();
    assert!(sim.place_food(Cell { x: 5, y: 0 }));

    assert_eq!(sim.tick(), TickOutcome::AteFood);

    assert_eq!(sim.head(), Cell { x: 5, y: 0 });
    assert!(sim.had_food());
    // The tail has followed on this tick; it stays on the next one.
    assert_eq!(sim.len(), 5);
    assert_eq!(sim.segments()[0].end(), Cell { x: 1, y: 0 });
    assert_eq!(free_cell_count(&sim), 20 * 15 - 5);
    let food = sim.food().unwrap();
    assert!(sim.board().holds(food));
    assert!(!sim.is_occupied(food));
    assert_ne!(food, Cell { x: 5, y: 0 });

    assert!(sim.place_food(Cell { x: 10, y: 10 }));
    assert_eq!(sim.tick(), TickOutcome::Advanced);

    assert_eq!(sim.head(), Cell { x: 6, y: 0 });
    assert_eq!(sim.len(), 6);
    assert_eq!(sim.segments()[0].end(), Cell { x: 1, y: 0 });
    assert_eq!(free_cell_count(&sim), 20 * 15 - 6);
    assert!(!sim.had_food());

    assert_eq!(sim.tick(), TickOutcome::Advanced);
    assert_eq!(sim.len(), 6);
    assert_eq!(sim.segments()[0].end(), Cell { x: 2, y: 0 });
}

#[test]
fn turn_starts_a_new_segment_after_the_head() {
    let mut sim = game_20_by_15();
    assert!(sim.place_food(Cell { x: 10, y: 10 }));
    sim.submit_turn(Direction::South);
    assert_eq!(sim.tick(), TickOutcome::Advanced);

    assert_eq!(sim.segments().len(), 2);
    assert_eq!(
        sim.segments()[0],
        Segment { start: Cell { x: 4, y: 1 }, direction: Direction::South, len: 1 }
    );
    assert_eq!(
        sim.segments()[1],
        Segment { start: Cell { x: 4, y: 0 }, direction: Direction::East, len: 4 }
    );
    assert_eq!(body_cells(&sim), cells_of(&[(4, 1), (4, 0), (3, 0), (2, 0), (1, 0)]));
    assert_eq!(sim.pending_turn(), None);

    for _ in 0..3 {
        assert_eq!(sim.tick(), TickOutcome::Advanced);
    }
    assert_eq!(sim.segments().len(), 2);
    assert_eq!(sim.segments()[0].len, 4);
    assert_eq!(sim.segments()[1].len, 1);

    // The last cell of the old segment goes, and the segment with it.
    assert_eq!(sim.tick(), TickOutcome::Advanced);
    assert_eq!(sim.segments().len(), 1);
    assert_eq!(
        sim.segments()[0],
        Segment { start: Cell { x: 4, y: 5 }, direction: Direction::South, len: 5 }
    );
}

#[test]
fn turn_onto_the_same_axis_is_dropped() {
    let mut sim = game_20_by_15();
    sim.submit_turn(Direction::East);
    assert_eq!(sim.pending_turn(), None);
    sim.submit_turn(Direction::West);
    assert_eq!(sim.pending_turn(), None);
    sim.submit_turn(Direction::South);
    assert_eq!(sim.pending_turn(), Some(Direction::South));
}

#[test]
fn second_turn_before_the_tick_is_dropped() {
    let mut sim = game_20_by_15();
    assert!(sim.place_food(Cell { x: 10, y: 10 }));
    sim.submit_turn(Direction::South);
    sim.submit_turn(Direction::North);
    assert_eq!(sim.pending_turn(), Some(Direction::South));

    assert_eq!(sim.tick(), TickOutcome::Advanced);
    assert_eq!(sim.head(), Cell { x: 4, y: 1 });
    assert_eq!(sim.pending_turn(), None);

    // After the tick the head travels south, and east is orthogonal to it.
    sim.submit_turn(Direction::North);
    assert_eq!(sim.pending_turn(), None);
    sim.submit_turn(Direction::East);
    sim.submit_turn(Direction::West);
    assert_eq!(sim.pending_turn(), Some(Direction::East));
    assert_eq!(sim.tick(), TickOutcome::Advanced);
    assert_eq!(sim.head(), Cell { x: 5, y: 1 });
}

#[test]
fn running_into_the_east_wall_ends_the_game() {
    let mut sim = game_20_by_15();
    assert!(sim.place_food(Cell { x: 10, y: 10 }));
    for _ in 0..15 {
        assert_eq!(sim.tick(), TickOutcome::Advanced);
    }
    assert_eq!(sim.head(), Cell { x: 19, y: 0 });
    assert_eq!(sim.tick(), TickOutcome::GameOver);
    assert_eq!(sim.head(), Cell { x: 4, y: 0 });
    assert_eq!(sim.len(), 5);
}

/// Feeds the snake once and leads it round a block of two rows and three
/// columns, so that its six cells fill the block and the head follows the
/// tail.
fn snake_chasing_its_tail() -> SnakeSimulation {
    let mut sim = game_20_by_15();
    assert!(sim.place_food(Cell { x: 5, y: 0 }));
    assert_eq!(sim.tick(), TickOutcome::AteFood);
    assert!(sim.place_food(Cell { x: 10, y: 10 }));
    sim.submit_turn(Direction::South);
    assert_eq!(sim.tick(), TickOutcome::Advanced);
    sim.submit_turn(Direction::West);
    assert_eq!(sim.tick(), TickOutcome::Advanced);
    assert_eq!(sim.tick(), TickOutcome::Advanced);
    assert_eq!(
        body_cells(&sim),
        cells_of(&[(3, 1), (4, 1), (5, 1), (5, 0), (4, 0), (3, 0)])
    );
    sim
}

#[test]
fn head_may_enter_the_cell_that_the_tail_leaves() {
    let mut sim = snake_chasing_its_tail();
    sim.submit_turn(Direction::North);

    assert_eq!(sim.tick(), TickOutcome::Advanced);

    assert_eq!(
        body_cells(&sim),
        cells_of(&[(3, 0), (3, 1), (4, 1), (5, 1), (5, 0), (4, 0)])
    );
    assert_eq!(sim.len(), 6);
    assert!(sim.is_occupied(Cell { x: 3, y: 0 }));
    assert_eq!(free_cell_count(&sim), 20 * 15 - 6);
}

#[test]
fn head_may_not_enter_a_cell_that_the_body_keeps() {
    let mut sim = snake_chasing_its_tail();
    // One step further west the cell to the north is free; the head turns
    // north and then east, into the fifth cell of its own body.
    assert_eq!(sim.tick(), TickOutcome::Advanced);
    sim.submit_turn(Direction::North);
    assert_eq!(sim.tick(), TickOutcome::Advanced);
    assert_eq!(
        body_cells(&sim),
        cells_of(&[(2, 0), (2, 1), (3, 1), (4, 1), (5, 1), (5, 0)])
    );
    sim.submit_turn(Direction::East);
    assert_eq!(sim.tick(), TickOutcome::Advanced);
    assert_eq!(
        body_cells(&sim),
        cells_of(&[(3, 0), (2, 0), (2, 1), (3, 1), (4, 1), (5, 1)])
    );
    sim.submit_turn(Direction::South);

    assert_eq!(sim.tick(), TickOutcome::GameOver);

    assert_eq!(body_cells(&sim), cells_of(&[(4, 0), (3, 0), (2, 0), (1, 0), (0, 0)]));
    assert_eq!(free_cell_count(&sim), 20 * 15 - 5);
}

#[test]
fn head_may_not_enter_the_cell_of_a_tail_that_stays() {
    // The snake of five cells is fed on the way round the block, so that the
    // tail stays where it is on the tick on which the head reaches it.
    let mut sim = game_20_by_15();
    assert!(sim.place_food(Cell { x: 5, y: 0 }));
    assert_eq!(sim.tick(), TickOutcome::AteFood);
    assert!(sim.place_food(Cell { x: 10, y: 10 }));
    sim.submit_turn(Direction::South);
    assert_eq!(sim.tick(), TickOutcome::Advanced);
    sim.submit_turn(Direction::West);
    assert_eq!(sim.tick(), TickOutcome::Advanced);
    assert!(sim.place_food(Cell { x: 3, y: 1 }));
    assert_eq!(sim.tick(), TickOutcome::AteFood);
    assert_eq!(
        body_cells(&sim),
        cells_of(&[(3, 1), (4, 1), (5, 1), (5, 0), (4, 0), (3, 0)])
    );
    assert!(sim.had_food());
    sim.submit_turn(Direction::North);

    assert_eq!(sim.tick(), TickOutcome::GameOver);
}

#[test]
fn advance_reports_a_crash_and_changes_nothing() {
    let mut sim = game_20_by_15();
    assert!(sim.place_food(Cell { x: 10, y: 10 }));
    sim.submit_turn(Direction::North);

    assert_eq!(sim.advance(), Step::Crashed);

    assert_eq!(sim.pending_turn(), Some(Direction::North));
    assert_eq!(sim.food(), Some(Cell { x: 10, y: 10 }));
    assert_eq!(body_cells(&sim), cells_of(&[(4, 0), (3, 0), (2, 0), (1, 0), (0, 0)]));
    assert_eq!(free_cell_count(&sim), 295);
}

#[test]
fn advance_takes_the_food_away_without_putting_out_more() {
    let mut sim = game_20_by_15();
    assert!(sim.place_food(Cell { x: 5, y: 0 }));

    assert_eq!(sim.advance(), Step::Fed);

    assert_eq!(sim.food(), None);
    assert!(sim.had_food());
    assert_eq!(sim.head(), Cell { x: 5, y: 0 });
    assert_eq!(sim.len(), 5);

    assert_eq!(sim.advance(), Step::Moved);
    assert_eq!(sim.len(), 6);
    assert!(!sim.had_food());
    assert_eq!(sim.food(), None);

    assert!(sim.spawn_food());
    let food = sim.food().unwrap();
    assert!(!sim.is_occupied(food));
}

#[test]
fn place_food_refuses_cells_of_the_snake_and_cells_off_the_board() {
    let mut sim = game_20_by_15();
    assert!(sim.place_food(Cell { x: 7, y: 7 }));
    assert!(!sim.place_food(Cell { x: 2, y: 0 }));
    assert_eq!(sim.food(), Some(Cell { x: 7, y: 7 }));
    assert!(!sim.place_food(Cell { x: 20, y: 0 }));
    assert!(!sim.place_food(Cell { x: 0, y: 15 }));
    assert_eq!(sim.food(), Some(Cell { x: 7, y: 7 }));
    assert!(sim.place_food(Cell { x: 19, y: 14 }));
    assert_eq!(sim.food(), Some(Cell { x: 19, y: 14 }));
}

#[test]
fn game_over_starts_again_on_the_same_board() {
    let mut sim = game_20_by_15();
    assert!(sim.place_food(Cell { x: 10, y: 10 }));
    sim.submit_turn(Direction::South);
    for _ in 0..4 {
        assert_eq!(sim.tick(), TickOutcome::Advanced);
    }
    sim.submit_turn(Direction::East);

    sim.game_over();

    assert_eq!(sim.board(), Board::new(20, 15).unwrap());
    assert_eq!(body_cells(&sim), cells_of(&[(4, 0), (3, 0), (2, 0), (1, 0), (0, 0)]));
    assert_eq!(sim.pending_turn(), None);
    assert!(!sim.had_food());
    assert_eq!(free_cell_count(&sim), 295);
    assert!(!sim.is_occupied(sim.food().unwrap()));
}

#[test]
fn is_occupied_is_false_off_the_board() {
    let sim = game_20_by_15();
    assert!(sim.is_occupied(Cell { x: 0, y: 0 }));
    assert!(!sim.is_occupied(Cell { x: 5, y: 0 }));
    assert!(!sim.is_occupied(Cell { x: 20, y: 0 }));
    assert!(!sim.is_occupied(Cell { x: 0, y: 15 }));
    assert!(!sim.is_occupied(Cell { x: usize::MAX, y: usize::MAX }));
}

#[test]
fn snake_that_fills_the_board_reports_it() {
    let mut sim = SnakeSimulation::new(Board::new(5, 2).unwrap());
    assert!(sim.place_food(Cell { x: 4, y: 1 }));
    sim.submit_turn(Direction::South);
    assert_eq!(sim.tick(), TickOutcome::AteFood);
    assert_eq!(sim.len(), 5);

    assert!(sim.place_food(Cell { x: 3, y: 1 }));
    sim.submit_turn(Direction::West);
    assert_eq!(sim.tick(), TickOutcome::AteFood);
    assert_eq!(sim.len(), 6);

    assert!(sim.place_food(Cell { x: 2, y: 1 }));
    assert_eq!(sim.tick(), TickOutcome::AteFood);
    assert_eq!(sim.len(), 7);

    assert!(sim.place_food(Cell { x: 1, y: 1 }));
    assert_eq!(sim.tick(), TickOutcome::AteFood);
    assert_eq!(sim.len(), 8);

    assert!(sim.place_food(Cell { x: 0, y: 1 }));
    assert_eq!(sim.tick(), TickOutcome::AteFood);
    assert_eq!(sim.len(), 9);
    // One cell is left, so the new food lies there.
    assert_eq!(sim.food(), Some(Cell { x: 0, y: 0 }));
    assert_eq!(free_cell_count(&sim), 1);

    sim.submit_turn(Direction::North);
    assert_eq!(sim.tick(), TickOutcome::BoardFull);
    assert_eq!(sim.len(), 10);
    assert_eq!(sim.food(), None);
    assert_eq!(free_cell_count(&sim), 0);
    assert!(sim.had_food());
    assert!(!sim.spawn_food());

    assert_eq!(sim.tick(), TickOutcome::GameOver);
    assert_eq!(sim.len(), 5);
    assert!(sim.food().is_some());
}
