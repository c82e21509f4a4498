//! A falling-sand simulation on a sparse grid of cells.
//!
//! The grid holds materials (sand, stone) at lattice positions. Each tick
//! every material reads a snapshot of the grid taken before the tick, falls
//! or slides according to its rules, and the grid is rebuilt from the moved
//! materials.
pub mod components;
pub mod blocks;
pub mod grid;
pub mod state;
pub mod laws;
