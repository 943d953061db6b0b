//! Extents of the post-processing bloom chain.
//!
//! When bloom is on, the offscreen HDR image is downsampled through a
//! half/quarter/eighth chain whose bottom level is added back in the composite.
use vstd::prelude::*;

verus! {

/// Bloom downsample levels: 1/2, 1/4, 1/8.
pub const BLOOM_LEVELS: usize = 3;

/// Extent of bloom level `level` (0 = half resolution) of a `size`-texel side:
/// the side halved `level + 1` times, never below one texel.
pub open spec fn spec_bloom_side(size: u32, level: int) -> u32 {
    let s = size >> ((level + 1) as u32);
    if s >= 1 {
        s
    } else {
        1
    }
}

/// The extents of every bloom level for a framebuffer of size `extent`.
pub fn bloom_extents(extent: [u32; 2]) -> (levels: Vec<[u32; 2]>)
    ensures
        levels@.len() == BLOOM_LEVELS,
        forall|l: int|
            0 <= l < BLOOM_LEVELS ==> (#[trigger] levels@[l])[0] == spec_bloom_side(extent[0], l)
                && levels@[l][1] == spec_bloom_side(extent[1], l),
{
    let mut levels: Vec<[u32; 2]> = Vec::with_capacity(BLOOM_LEVELS);
    let mut level: usize = 0;
    while level < BLOOM_LEVELS
        invariant
            level <= BLOOM_LEVELS,
            levels@.len() == level,
            forall|l: int|
                0 <= l < level ==> (#[trigger] levels@[l])[0] == spec_bloom_side(extent[0], l)
                    && levels@[l][1] == spec_bloom_side(extent[1], l),
        decreases BLOOM_LEVELS - level,
    {
        let shift = (level + 1) as u32;
        let w0 = extent[0] >> shift;
        let h0 = extent[1] >> shift;
        let w = if w0 >= 1 { w0 } else { 1 };
        let h = if h0 >= 1 { h0 } else { 1 };
        levels.push([w, h]);
        level = level + 1;
    }
    levels
}

/// Every bloom level is at least one texel and at most half the level above it
/// (the first level at most half the framebuffer), unless it is already down to
/// a single texel.
pub proof fn law_bloom_chain_halves(size: u32, level: int)
    requires
        0 <= level < BLOOM_LEVELS,
    ensures
        spec_bloom_side(size, level) >= 1,
        level == 0 ==> spec_bloom_side(size, level) == 1 || 2 * spec_bloom_side(size, level) <= size,
        level > 0 ==> spec_bloom_side(size, level) == 1 || 2 * spec_bloom_side(size, level)
            <= spec_bloom_side(size, level - 1),
{
    let s1 = size >> 1u32;
    let s2 = size >> 2u32;
    let s3 = size >> 3u32;
    assert(2 * s1 <= size && 2 * s2 <= s1 && 2 * s3 <= s2 && s2 == s1 >> 1u32 && s3 == s2 >> 1u32)
        by (bit_vector)
        requires
            s1 == size >> 1u32,
            s2 == size >> 2u32,
            s3 == size >> 3u32,
    ;
}

} // verus!
