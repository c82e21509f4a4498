//! Value types of the grid: cell sizes, positions, directions and pixels.
pub mod cell_size;
pub mod grid_position;
pub mod directions;
pub mod pixel;
pub mod block_types;
