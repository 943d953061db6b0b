//! Road surface materials shared by the world mesh and gameplay systems.
//!
//! A `SurfaceMaterial` maps one-to-one to a slot of the world texture atlas.
//! The asphalt ribbon is cut into long blocks; each block rolls a variant
//! deterministically, so worn and cracked stretches appear occasionally and
//! subtly instead of alternating every few metres.
use vstd::prelude::*;

verus! {

#[derive(Clone, Copy, Debug, PartialEq, Eq, Structural)]
pub enum SurfaceMaterial {
    AsphaltBase,
    AsphaltWorn,
    AsphaltCracked,
    Grass,
    Rock,
}

impl SurfaceMaterial {
    /// Atlas slot of the material in the world texture (slot 4 is foliage).
    pub open spec fn spec_atlas_index(self) -> u32 {
        match self {
            SurfaceMaterial::AsphaltBase => 0,
            SurfaceMaterial::AsphaltWorn => 1,
            SurfaceMaterial::AsphaltCracked => 2,
            SurfaceMaterial::Grass => 3,
            SurfaceMaterial::Rock => 5,
        }
    }

    /// Atlas slot of the material in the world texture.
    pub fn atlas_index(self) -> (slot: u32)
        ensures
            slot == self.spec_atlas_index(),
    {
        match self {
            SurfaceMaterial::AsphaltBase => 0,
            SurfaceMaterial::AsphaltWorn => 1,
            SurfaceMaterial::AsphaltCracked => 2,
            SurfaceMaterial::Grass => 3,
            SurfaceMaterial::Rock => 5,
        }
    }

    /// The material is one of the asphalt variants.
    pub open spec fn is_asphalt(self) -> bool {
        self == SurfaceMaterial::AsphaltBase || self == SurfaceMaterial::AsphaltWorn || self
            == SurfaceMaterial::AsphaltCracked
    }
}

/// Length (metres) of an asphalt block that shares one variant.
pub const ASPHALT_BLOCK_LEN: u32 = 96;

/// The 15-bit roll of asphalt block `block`: bits 16..30 of a 32-bit linear
/// congruential hash of the block index.
pub open spec fn asphalt_roll(block: i32) -> u32 {
    let h = block.wrapping_mul(1_103_515_245i32).wrapping_add(12_345i32);
    ((h as u32) >> 16u32) & 0x7fffu32
}

/// The variant of asphalt block `block`: a roll below 3% of the roll range is
/// cracked, below 15% worn, anything else the base asphalt.
pub open spec fn spec_asphalt_variant(block: i32) -> SurfaceMaterial {
    let r = asphalt_roll(block);
    if r <= 983 {
        SurfaceMaterial::AsphaltCracked
    } else if r <= 4915 {
        SurfaceMaterial::AsphaltWorn
    } else {
        SurfaceMaterial::AsphaltBase
    }
}

/// Picks the asphalt variant of block `block`.
pub fn asphalt_variant(block: i32) -> (m: SurfaceMaterial)
    ensures
        m == spec_asphalt_variant(block),
        m.is_asphalt(),
{
    let h = block.wrapping_mul(1_103_515_245i32).wrapping_add(12_345i32);
    let r = ((h as u32) >> 16u32) & 0x7fffu32;
    if r <= 983 {
        SurfaceMaterial::AsphaltCracked
    } else if r <= 4915 {
        SurfaceMaterial::AsphaltWorn
    } else {
        SurfaceMaterial::AsphaltBase
    }
}

} // verus!
