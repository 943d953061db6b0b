//! Procedural sprites of the screen-space sun lens flare: the sun's hot core
//! disc and the horizontally elongated anamorphic streak. Both are tinted
//! warm white; only their alpha falloff varies across the sprite.
use vstd::prelude::*;

use crate::render::bake::{bake_rgba, px, px_x, px_y};

verus! {

/// Warm-white tint of the sun core sprite.
pub const SUN_CORE_RGB: (u8, u8, u8) = (255, 248, 235);

/// Warm tint of the anamorphic streak sprite.
pub const FLARE_STREAK_RGB: (u8, u8, u8) = (255, 243, 220);

/// Bakes the `size`×`size` sun core sprite: every texel is the warm-white core
/// tint, with the soft disc falloff `alpha(x, y)` as its coverage.
pub fn generate_sun_core<F: Fn(u32, u32) -> u8>(size: u32, alpha: F) -> (out: Vec<u8>)
    requires
        4 * size * size <= usize::MAX,
        forall|x: u32, y: u32| x < size && y < size ==> call_requires(alpha, (x, y)),
    ensures
        out@.len() == 4 * size * size,
        forall|p: int|
            0 <= p < size * size ==> {
                let (r, g, b, a) = #[trigger] px(out@, p);
                &&& (r, g, b) == SUN_CORE_RGB
                &&& call_ensures(alpha, (px_x(p, size as int), px_y(p, size as int)), a)
            },
{
    bake_rgba(
        size,
        size,
        (|x: u32, y: u32| -> (t: (u8, u8, u8, u8))
            requires
                call_requires(alpha, (x, y)),
            ensures
                (t.0, t.1, t.2) == SUN_CORE_RGB,
                call_ensures(alpha, (x, y), t.3),
        {
            let a = alpha(x, y);
            (255u8, 248u8, 235u8, a)
        }),
    )
}

/// Bakes the `w`×`h` anamorphic streak sprite: every texel is the warm streak
/// tint, with the elongated falloff `alpha(x, y)` as its coverage.
pub fn generate_flare_streak<F: Fn(u32, u32) -> u8>(w: u32, h: u32, alpha: F) -> (out: Vec<u8>)
    requires
        4 * w * h <= usize::MAX,
        forall|x: u32, y: u32| x < w && y < h ==> call_requires(alpha, (x, y)),
    ensures
        out@.len() == 4 * w * h,
        forall|p: int|
            0 <= p < w * h ==> {
                let (r, g, b, a) = #[trigger] px(out@, p);
                &&& (r, g, b) == FLARE_STREAK_RGB
                &&& call_ensures(alpha, (px_x(p, w as int), px_y(p, w as int)), a)
            },
{
    bake_rgba(
        w,
        h,
        (|x: u32, y: u32| -> (t: (u8, u8, u8, u8))
            requires
                call_requires(alpha, (x, y)),
            ensures
                (t.0, t.1, t.2) == FLARE_STREAK_RGB,
                call_ensures(alpha, (x, y), t.3),
        {
            let a = alpha(x, y);
            (255u8, 243u8, 220u8, a)
        }),
    )
}

} // verus!
