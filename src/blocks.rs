//! Materials and the rules by which they move.
pub mod block;
pub mod sand;
pub mod stone;
