use snek::geometry::{Board, Cell};
use snek::grid::GridOccupancy;

#[test]
fn new_grid_is_free() {
    let board = Board::new(6, 4).unwrap();
    let grid = GridOccupancy::new(board);
    assert_eq!(grid.board(), board);
    for index in 0..board.cell_count() {
        assert!(!grid.is_occupied(board.to_position(index)));
    }
}

#[test]
fn set_marks_one_cell_only() {
    let board = Board::new(6, 4).unwrap();
    let mut grid = GridOccupancy::new(board);
    let marked = Cell { x: 2, y: 3 };
    grid.set(marked, true);
    for index in 0..board.cell_count() {
        let cell = board.to_position(index);
        assert_eq!(grid.is_occupied(cell), cell == marked);
    }
    grid.set(marked, false);
    assert!(!grid.is_occupied(marked));
}

#[test]
fn pick_returns_a_free_cell_and_leaves_the_grid_alone() {
    let board = Board::new(6, 4).unwrap();
    let mut grid = GridOccupancy::new(board);
    for x in 0..6 {
        grid.set(Cell { x, y: 1 }, true);
    }
    let mut rng = rand::thread_rng();
    for _ in 0..200 {
        let cell = grid.pick_random_free_cell(&mut rng).unwrap();
        assert!(board.holds(cell));
        assert_ne!(cell.y, 1);
        assert!(!grid.is_occupied(cell));
    }
    for index in 0..board.cell_count() {
        let cell = board.to_position(index);
        assert_eq!(grid.is_occupied(cell), cell.y == 1);
    }
}

#[test]
fn pick_finds_the_only_free_cell() {
    let board = Board::new(6, 4).unwrap();
    let mut grid = GridOccupancy::new(board);
    let spared = Cell { x: 4, y: 2 };
    for index in 0..board.cell_count() {
        let cell = board.to_position(index);
        if cell != spared {
            grid.set(cell, true);
        }
    }
    let mut rng = rand::thread_rng();
    for _ in 0..20 {
        assert_eq!(grid.pick_random_free_cell(&mut rng), Some(spared));
    }
}

#[test]
fn pick_reaches_every_free_cell() {
    let board = Board::new(3, 2).unwrap();
    let mut grid = GridOccupancy::new(board);
    grid.set(Cell { x: 1, y: 0 }, true);
    let mut rng = rand::thread_rng();
    let mut seen = [false; 6];
    for _ in 0..2000 {
        let cell = grid.pick_random_free_cell(&mut rng).unwrap();
        seen[board.to_index(cell)] = true;
    }
    assert_eq!(seen, [true, false, true, true, true, true]);
}

#[test]
fn pick_on_a_full_grid_gives_none() {
    let board = Board::new(3, 2).unwrap();
    let mut grid = GridOccupancy::new(board);
    for index in 0..board.cell_count() {
        grid.set(board.to_position(index), true);
    }
    let mut rng = rand::thread_rng();
    assert_eq!(grid.pick_random_free_cell(&mut rng), None);
}
