//! The core of a terminal snake game: the snake's movement and growth, the
//! board's collision and food rules, and the tick-driven session that ties
//! them together. Reading keys and drawing are left to the caller: the
//! library takes input events and hands back batches of cells to draw.
//!
//! Every function carries a contract that Verus proves, except the calls
//! into the `rand` crate in the `random` module, whose contracts are
//! assumed.

pub mod frame;
pub mod game;
mod random;
pub mod scene;
pub mod snake;
