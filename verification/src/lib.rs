//! A cellular automaton on a torus: a fixed-size grid of binary cells whose
//! edges wrap around, a transition rule driven by the number of live
//! neighbours, a random seeder and a text renderer.

pub mod cell;
pub mod evolve;
pub mod grid;
pub mod population;
pub mod render;
pub mod screen;
pub mod seed;
pub mod size;

pub use crate::cell::Cell;
pub use crate::grid::{Grid, Matrix};
