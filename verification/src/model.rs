//! The simulation engine: the grid data structure and the transition rule.

pub mod grid;
pub mod rules;

pub use grid::Grid;
pub use grid::GridError;
pub use rules::compute_cell_new_state;
pub use rules::next_generation;
