//! Packing of the world texture atlas.
//!
//! The world atlas is one row of material slots, left to right (asphalt base,
//! worn, cracked, grass, foliage, rock). Each slot is padded with a gutter of
//! cloned edge columns on both sides, so the mip chain generated over the whole
//! atlas blurs each slot into itself instead of bleeding a neighbour's color
//! across the boundary.
use vstd::prelude::*;

use crate::render::bake::{bake_rgba, px, px_x, px_y};

verus! {

/// Gutter width (texels) on each side of a world-atlas slot.
pub const ATLAS_GUTTER: u32 = 8;

/// One RGBA8 texture placed in a world-atlas slot.
pub struct AtlasSlot {
    pub width: u32,
    pub height: u32,
    /// Row-major RGBA8 texels, `4 * width * height` bytes.
    pub pixels: Vec<u8>,
}

/// A packed RGBA8 atlas.
pub struct WorldAtlas {
    pub width: u32,
    pub height: u32,
    pub pixels: Vec<u8>,
}

/// The slot texture is a well-formed non-empty RGBA8 image.
pub open spec fn slot_wf(s: AtlasSlot) -> bool {
    &&& s.width >= 1
    &&& s.pixels@.len() == 4 * s.width * s.height
    &&& 4 * s.width * s.height <= u32::MAX
}

/// Height of the atlas: the tallest of the first `n` slots.
pub open spec fn max_height(slots: Seq<AtlasSlot>, n: nat) -> u32
    decreases n,
{
    if n == 0 {
        0
    } else {
        let m = max_height(slots, (n - 1) as nat);
        if slots[n - 1].height > m {
            slots[n - 1].height
        } else {
            m
        }
    }
}

proof fn lemma_max_height(slots: Seq<AtlasSlot>, n: nat)
    requires
        n <= slots.len(),
    ensures
        forall|k: int| 0 <= k < n ==> slots[k].height <= max_height(slots, n),
    decreases n,
{
    if n > 0 {
        lemma_max_height(slots, (n - 1) as nat);
    }
}

/// `v` clamped into `[lo, hi]`.
pub open spec fn clamp_int(v: int, lo: int, hi: int) -> int {
    if v < lo {
        lo
    } else if v > hi {
        hi
    } else {
        v
    }
}

/// The atlas texel at column `ax`, row `y`, for slots of horizontal stride
/// `stride`: the column belongs to slot `ax / stride`; rows below a slot's
/// texture are transparent black; otherwise the texel is the slot texel of the
/// same row whose column is the in-slot column minus the gutter, clamped to the
/// texture (so the gutters repeat the edge columns).
pub open spec fn spec_atlas_texel(slots: Seq<AtlasSlot>, gutter: u32, stride: u32, ax: u32, y: u32) -> (u8, u8, u8, u8) {
    let k = ax / stride;
    let x = ax % stride;
    let s = slots[k as int];
    if y >= s.height {
        (0u8, 0u8, 0u8, 0u8)
    } else {
        let sx = clamp_int(x - gutter, 0, s.width - 1);
        px(s.pixels@, y * s.width + sx)
    }
}

fn atlas_texel(slots: &[AtlasSlot], gutter: u32, stride: u32, ax: u32, y: u32) -> (t: (u8, u8, u8, u8))
    requires
        stride > 0,
        ax / stride < slots@.len(),
        forall|k: int| 0 <= k < slots@.len() ==> #[trigger] slot_wf(slots@[k]),
    ensures
        t == spec_atlas_texel(slots@, gutter, stride, ax, y),
{
    let k = (ax / stride) as usize;
    let x = ax % stride;
    let s = &slots[k];
    proof {
        assert(slot_wf(slots@[k as int]));
    }
    if y >= s.height {
        (0u8, 0u8, 0u8, 0u8)
    } else {
        let sx: u32 = if x < gutter {
            0
        } else if x - gutter > s.width - 1 {
            s.width - 1
        } else {
            x - gutter
        };
        proof {
            assert(sx as int == clamp_int(x - gutter, 0, s.width - 1));
            assert((y * s.width + sx) * 4 + 3 < 4 * s.width * s.height) by (nonlinear_arith)
                requires
                    y < s.height,
                    sx < s.width,
            ;
        }
        let i = ((y as usize) * (s.width as usize) + (sx as usize)) * 4;
        (s.pixels[i], s.pixels[i + 1], s.pixels[i + 2], s.pixels[i + 3])
    }
}

/// Packs the slot textures into one row of gutter-padded slots. Every slot is
/// `slots[0].width + 2 * gutter` texels wide; the atlas is as tall as the
/// tallest slot.
pub fn pack_world_atlas(slots: &[AtlasSlot], gutter: u32) -> (atlas: WorldAtlas)
    requires
        slots@.len() >= 1,
        forall|k: int| 0 <= k < slots@.len() ==> #[trigger] slot_wf(slots@[k]),
        slots@[0].width + 2 * gutter <= u32::MAX,
        (slots@[0].width + 2 * gutter) * slots@.len() <= u32::MAX,
        4 * ((slots@[0].width + 2 * gutter) * slots@.len()) * max_height(slots@, slots@.len())
            <= u32::MAX,
    ensures
        atlas.width == (slots@[0].width + 2 * gutter) * slots@.len(),
        atlas.height == max_height(slots@, slots@.len()),
        atlas.pixels@.len() == 4 * atlas.width * atlas.height,
        forall|p: int|
            0 <= p < atlas.width * atlas.height ==> #[trigger] px(atlas.pixels@, p) == spec_atlas_texel(
                slots@,
                gutter,
                (slots@[0].width + 2 * gutter) as u32,
                px_x(p, atlas.width as int),
                px_y(p, atlas.width as int),
            ),
{
    let n = slots.len();
    let stride: u32 = slots[0].width + 2 * gutter;
    let mut h: u32 = 0;
    let mut k: usize = 0;
    while k < n
        invariant
            n == slots@.len(),
            k <= n,
            h == max_height(slots@, k as nat),
        decreases n - k,
    {
        if slots[k].height > h {
            h = slots[k].height;
        }
        k = k + 1;
    }
    proof {
        assert(slot_wf(slots@[0]));
        assert(n <= stride * n) by (nonlinear_arith)
            requires
                stride >= 1,
        ;
    }
    let w: u32 = stride * (n as u32);
    let pixels = bake_rgba(
        w,
        h,
        (|ax: u32, y: u32| -> (t: (u8, u8, u8, u8))
            requires
                ax < stride * n,
            ensures
                t == spec_atlas_texel(slots@, gutter, stride, ax, y),
        {
            proof {
                assert(ax / stride < n) by (nonlinear_arith)
                    requires
                        ax < stride * n,
                        stride > 0,
                ;
            }
            atlas_texel(slots, gutter, stride, ax, y)
        }),
    );
    WorldAtlas { width: w, height: h, pixels }
}

/// The gutters clone the edge columns of their slot: every column of the left
/// gutter shows the slot's first texture column, every column right of the
/// texture shows its last one, so filtering never mixes in a neighbour slot.
pub proof fn law_gutters_clone_slot_edges(
    slots: Seq<AtlasSlot>,
    gutter: u32,
    stride: u32,
    k: u32,
    x: u32,
    y: u32,
)
    requires
        stride > 0,
        x < stride,
        k < slots.len(),
        slots[k as int].width >= 1,
        gutter + slots[k as int].width <= stride,
        k * stride + stride <= u32::MAX,
    ensures
        x < gutter ==> spec_atlas_texel(slots, gutter, stride, (k * stride + x) as u32, y)
            == spec_atlas_texel(slots, gutter, stride, (k * stride + gutter) as u32, y),
        x >= gutter + slots[k as int].width ==> spec_atlas_texel(
            slots,
            gutter,
            stride,
            (k * stride + x) as u32,
            y,
        ) == spec_atlas_texel(
            slots,
            gutter,
            stride,
            (k * stride + gutter + slots[k as int].width - 1) as u32,
            y,
        ),
{
    let w = slots[k as int].width;
    vstd::arithmetic::div_mod::lemma_fundamental_div_mod_converse(
        (k * stride + x) as int,
        stride as int,
        k as int,
        x as int,
    );
    if gutter < stride {
        vstd::arithmetic::div_mod::lemma_fundamental_div_mod_converse(
            (k * stride + gutter) as int,
            stride as int,
            k as int,
            gutter as int,
        );
    }
    vstd::arithmetic::div_mod::lemma_fundamental_div_mod_converse(
        (k * stride + gutter + w - 1) as int,
        stride as int,
        k as int,
        (gutter + w - 1) as int,
    );
}

} // verus!
