//! A verified engine for Conway's Game of Life.
//!
//! The grid is a fixed-size rectangle with hard edges: cells outside the
//! rectangle do not exist and are never counted as neighbors.  Cell states
//! are stored one bit per cell in a `fixedbitset::FixedBitSet`, addressed
//! row-major as `x + width * y`.

pub mod bitset;
pub mod engine;
pub mod render;
pub mod laws;

pub use engine::Pattern;
pub use engine::State;
