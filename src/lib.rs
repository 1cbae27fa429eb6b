//! Conway's Game of Life on a bounded grid, with the transition rule and the
//! grid operations proved against a mathematical model of a generation.

pub mod cell;
pub mod engine;
pub mod generation;
pub mod laws;
pub mod location;
pub mod world;

pub use cell::{Cell, CellLike, DeadCell, LiveCell};
pub use engine::Conway;
pub use location::Location;
pub use world::{GridError, World};
