use vstd::prelude::*;

verus! {

/// What a placement puts down: a material, or nothing at all for the eraser.
#[derive(Debug, Clone, Copy, PartialEq, Eq, Structural, Hash)]
pub enum BlockType {
    Sand,
    Stone,
    Eraser,
}

impl BlockType {
    /// Whether this kind places a material (rather than erasing).
    pub open spec fn is_material(self) -> bool {
        self != BlockType::Eraser
    }
}

} // verus!
