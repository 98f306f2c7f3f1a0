//! A deterministic, toroidal Game of Life engine.
//!
//! The simulation state is a fixed-size rectangular grid of two-valued
//! cells. Neighbor counting and pattern pasting wrap around both axes,
//! so the grid behaves as a torus. A fixed-timestep scheduler decouples
//! the simulation rate from the caller's frame rate, and a clipboard
//! supports capturing a rectangular region and pasting it back anywhere,
//! wrapping at the boundary.

pub mod scheduler;
pub mod session;
pub mod state;
pub mod clipboard;
pub mod grid;
pub mod laws;
pub mod torus;
