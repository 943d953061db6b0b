//! Row-major RGBA8 texture baking shared by the procedural sprites and tiles.
use vstd::prelude::*;

verus! {

/// Horizontal texel coordinate of pixel `p` in a `w`-wide row-major image.
pub open spec fn px_x(p: int, w: int) -> u32 {
    (p % w) as u32
}

/// Vertical texel coordinate of pixel `p` in a `w`-wide row-major image.
pub open spec fn px_y(p: int, w: int) -> u32 {
    (p / w) as u32
}

/// The four channels of pixel `p` of an RGBA8 buffer.
pub open spec fn px(out: Seq<u8>, p: int) -> (u8, u8, u8, u8) {
    (out[4 * p], out[4 * p + 1], out[4 * p + 2], out[4 * p + 3])
}

/// Bakes a `w`×`h` RGBA8 image, row by row from the top-left texel, asking
/// `texel(x, y)` for the four channels of every texel.
pub fn bake_rgba<F: Fn(u32, u32) -> (u8, u8, u8, u8)>(w: u32, h: u32, texel: F) -> (out: Vec<u8>)
    requires
        4 * w * h <= usize::MAX,
        forall|x: u32, y: u32| x < w && y < h ==> call_requires(texel, (x, y)),
    ensures
        out@.len() == 4 * w * h,
        forall|p: int|
            0 <= p < w * h ==> call_ensures(texel, (px_x(p, w as int), px_y(p, w as int)), #[trigger] px(out@, p)),
{
    let n: usize = (4 * (w as u64) * (h as u64)) as usize;
    let mut out: Vec<u8> = Vec::with_capacity(n);
    let mut y: u32 = 0;
    while y < h
        invariant
            0 <= y <= h,
            4 * w * h <= usize::MAX,
            forall|x: u32, y: u32| x < w && y < h ==> call_requires(texel, (x, y)),
            out@.len() == 4 * (y * w),
            forall|p: int|
                0 <= p < y * w ==> call_ensures(texel, (px_x(p, w as int), px_y(p, w as int)), #[trigger] px(out@, p)),
        decreases h - y,
    {
        let mut x: u32 = 0;
        while x < w
            invariant
                0 <= y < h,
                0 <= x <= w,
                4 * w * h <= usize::MAX,
                forall|x: u32, y: u32| x < w && y < h ==> call_requires(texel, (x, y)),
                out@.len() == 4 * (y * w + x),
                forall|p: int|
                    0 <= p < y * w + x ==> call_ensures(texel, (px_x(p, w as int), px_y(p, w as int)), #[trigger] px(out@, p)),
            decreases w - x,
        {
            let (c0, c1, c2, c3) = texel(x, y);
            let ghost p: int = y * w + x;
            let ghost before = out@;
            proof {
                assert(y * w + x < h * w) by (nonlinear_arith)
                    requires x < w, y < h;
                assert(h * w == w * h) by (nonlinear_arith);
                vstd::arithmetic::div_mod::lemma_fundamental_div_mod_converse(p, w as int, y as int, x as int);
            }
            out.push(c0);
            out.push(c1);
            out.push(c2);
            out.push(c3);
            proof {
                assert(px(out@, p) == (c0, c1, c2, c3));
                assert(px_x(p, w as int) == x && px_y(p, w as int) == y);
                assert forall|q: int| 0 <= q < p + 1 implies call_ensures(
                    texel,
                    (px_x(q, w as int), px_y(q, w as int)),
                    #[trigger] px(out@, q),
                ) by {
                    if q < p {
                        assert(px(out@, q) == px(before, q));
                    }
                }
            }
            x = x + 1;
        }
        proof {
            assert((y + 1) * w == y * w + w) by (nonlinear_arith);
        }
        y = y + 1;
    }
    proof {
        assert(4 * (h * w) == 4 * w * h) by (nonlinear_arith);
        assert(h * w == w * h) by (nonlinear_arith);
    }
    out
}

} // verus!
