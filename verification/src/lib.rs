//! A cellular automaton on a torus: Conway's rules, a heat trail that marks
//! recent births, and a debounce budget that can hold off a requested death.

pub mod cell;
pub mod error;
pub mod laws;
pub mod patterns;
pub mod state;
pub mod topology;
pub mod universe;

pub use cell::Cell;
pub use error::ValidationError;
pub use topology::{fix_coords, Neighbours};
pub use universe::Universe;
