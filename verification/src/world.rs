//! Roadside world objects: marker posts, street lamps and trees.
//!
//! Placement is a pure function of the distance along the road, so chunk
//! rebuilds and snapshot runs always place scenery identically. This module
//! holds the object types and the integer core of the scenery placement rolls.
use vstd::prelude::*;

verus! {

/// Roadside marker posts: a small white post with a colored band, on both
/// sides of the road at a regular cadence.
#[derive(Clone, Copy, Debug, PartialEq, Eq, Structural)]
pub struct MarkerPost;

/// Roadside street lamps: a pole with an arm and a luminaire head, one per
/// side every lamp spacing.
#[derive(Clone, Copy, Debug, PartialEq, Eq, Structural)]
pub struct StreetLamp;

/// Roadside trees, alternating sides, with a rolled shape variant.
#[derive(Clone, Copy, Debug, PartialEq, Eq, Structural)]
pub struct Tree;

/// The 24-bit scenery hash of a quantised world coordinate `x`.
pub open spec fn spec_scenery_hash(x: u64) -> u32 {
    let h0 = x.wrapping_mul(1_103_515_245u64).wrapping_add(12_345u64);
    let h1 = h0 ^ (h0 >> 16u64);
    let h2 = h1.wrapping_mul(0x85EB_CA6Bu64);
    let h3 = h2 ^ (h2 >> 13u64);
    (h3 & 0x00FF_FFFFu64) as u32
}

/// Deterministic 24-bit hash of a quantised world coordinate; dividing it by
/// `0xFF_FFFF` gives the scenery roll in `0..=1`.
pub fn scenery_hash(x: u64) -> (h: u32)
    ensures
        h == spec_scenery_hash(x),
        h <= 0x00FF_FFFF,
{
    let mut h = x.wrapping_mul(1_103_515_245u64).wrapping_add(12_345u64);
    h = h ^ (h >> 16u64);
    h = h.wrapping_mul(0x85EB_CA6Bu64);
    h = h ^ (h >> 13u64);
    let v = h & 0x00FF_FFFFu64;
    assert(v <= 0x00FF_FFFF) by (bit_vector)
        requires
            v == h & 0x00FF_FFFFu64,
    ;
    v as u32
}

/// The side of the road (+1 right, -1 left) of the tree at tree-grid
/// position `grid`: even positions on the right, odd ones on the left.
pub open spec fn spec_tree_side(grid: i32) -> i32 {
    if (grid as int) % 2 == 0 {
        1i32
    } else {
        -1i32
    }
}

/// The side of the road of the tree at tree-grid position `grid`.
pub fn tree_side(grid: i32) -> (side: i32)
    ensures
        side == spec_tree_side(grid),
{
    let even = ((grid as i64 + 2147483648i64) as u64) % 2 == 0;
    if even {
        1
    } else {
        -1
    }
}

/// Consecutive trees stand on opposite sides of the road.
pub proof fn law_trees_alternate_sides(grid: i32)
    requires
        grid < i32::MAX,
    ensures
        spec_tree_side((grid + 1) as i32) == -spec_tree_side(grid),
{
}

/// The shape of a tree from its 24-bit scenery roll: the lower half of the
/// roll range is a pine (variant 0), the upper half a broadleaf (variant 1).
pub fn tree_variant(roll: u32) -> (variant: u32)
    requires
        roll <= 0x00FF_FFFF,
    ensures
        variant == (if roll <= 0x7F_FFFF { 0u32 } else { 1u32 }),
{
    if roll <= 0x7F_FFFF {
        0
    } else {
        1
    }
}

} // verus!
