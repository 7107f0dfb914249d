//! Conway's Game of Life on a fixed grid with a permanently dead border.

pub mod world;
pub mod laws;
pub mod frame;

pub use world::{Cell, Position, World, HEIGHT, PADDED_HEIGHT, PADDED_WIDTH, WIDTH};
