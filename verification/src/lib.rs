//! A dense, bounded three-dimensional cellular automaton in the style of
//! Conway's Game of Life, generalized to 26-neighborhood connectivity.
//!
//! The grid stores one [`Cell`] per coordinate in a flat backing vector,
//! addressed by the linear index `x + y*width + z*width*height`. An alive
//! cell survives a generation advance with 5 to 7 alive neighbors; an empty
//! cell becomes alive with 6 or 7.

pub mod cell;
pub mod grid;
pub mod laws;
pub mod model;

pub use cell::Cell;
pub use grid::Grid3D;
