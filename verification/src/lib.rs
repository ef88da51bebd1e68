//! A toroidal Game of Life universe over a bit-packed grid.
//!
//! The grid lives in a `fixedbitset::FixedBitSet`; every rule of the
//! automaton (indexing, neighbor counting, the transition step, rendering)
//! is verified against a sequence model of that bit set.

pub mod bits;
pub mod model;
pub mod universe;

pub use universe::Universe;
