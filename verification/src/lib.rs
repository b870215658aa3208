//! Simulation core of a tile-grid game: coordinates addressed through a
//! bit-interleaved (Z-order) index, a dense spatial grid, two statically
//! chosen bounding policies for out-of-range positions, and a cooperative
//! driver that turns a pure state-transition model into rendered frames.

pub mod data;
pub mod grid;
pub mod system;
pub mod zorder;
