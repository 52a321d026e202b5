//! Core simulation of a snake game on a fixed-size toroidal grid.
//!
//! The snake moves one cell per logic tick, wraps around the board's edges,
//! grows when its head lands on the apple, and dies on self-collision.
//! Rendering, windowing and input decoding live outside this crate; the
//! simulation is driven purely through discrete events (tick, direction
//! change, reset) and observed through read-only snapshots.

pub mod grid;
pub mod snake;
pub mod apple;
pub mod sim;
