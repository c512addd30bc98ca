//! Simulation core of a terminal snake game: a bounded grid holding a
//! growable, self-avoiding snake that moves one cell per tick, an item that
//! makes it grow, and the list of cells to redraw after each tick.

pub mod field;
pub mod game;
pub mod snake;

pub use field::{limit, limit_point, Direction, Field, FieldView};
pub use snake::{Point, Snake, SnakeView};
