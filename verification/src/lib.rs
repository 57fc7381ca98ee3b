//! A grid simulation of the game of Snake.
//!
//! The snake is a chain of straight segments on a rectangular board. It moves
//! one cell per tick, grows after it has eaten, and starts over when it runs
//! into a wall or into itself. Every function carries a contract that Verus
//! proves.
//!
//! - [`geometry`]: cells, directions, and the board with its row-major
//!   numbering.
//! - [`segment`] and [`body`]: straight runs, chains of them, and the cells
//!   that they cover.
//! - [`grid`]: the occupancy grid, and the draw of a free cell.
//! - [`random`]: what is taken on trust from the `rand` crate.
//! - [`model`]: the states of the game and what a tick makes of them.
//! - [`motion`]: why a move keeps a valid state valid.
//! - [`simulation`]: the game itself.
//! - [`laws`]: what holds of every game.
//! - [`controls`]: keys and the pause switch.
//! - [`frame`]: the size of the picture.

pub mod body;
pub mod controls;
pub mod frame;
pub mod geometry;
pub mod grid;
pub mod laws;
pub mod model;
pub mod motion;
pub mod random;
pub mod segment;
pub mod simulation;
