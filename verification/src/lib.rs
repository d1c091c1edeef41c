//! A verified Game of Life engine on a fixed-size toroidal grid.
//!
//! The grid is stored as a packed bit array (one bit per cell, row-major);
//! `tick` advances one generation under either the standard Life rule or a
//! bit-inverted "reverse" rule table.

pub mod bits;
pub mod rules;
pub mod universe;

pub use universe::Universe;
