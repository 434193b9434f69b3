//! A fixed-size Conway's Game of Life grid: a flat row-major board of
//! boolean cells with Moore-neighbourhood counting, the B3/S23 update
//! rule, and a read-only viewport snapshot for rendering.

pub mod grid;
pub mod laws;

pub use grid::Grid;
