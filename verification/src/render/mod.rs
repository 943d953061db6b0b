//! Renderer-side decisions that do not touch the GPU: the world-chunk window,
//! ray-tracing pool bookkeeping, procedural sprite/tile baking and the
//! per-frame post-processing switches.
use vstd::prelude::*;

pub mod bake;
pub mod chunk_cache;
pub mod cloud;
pub mod drive;
pub mod flare;
pub mod frame_builder;
pub mod particles;
pub mod pipeline;
pub mod post;
pub mod raytrace;
pub mod reflection;
pub mod scene;
pub mod swapchain;

use crate::shaders::{
    POST_BLOOM, POST_CHROMA, POST_DEBUG_MASK, POST_DEBUG_PLANAR, POST_DEBUG_REFLTEX, POST_FXAA,
    POST_GRAIN, POST_RAINDROPS, POST_REFLECT, POST_SATURATION, POST_VIGNETTE,
};

verus! {

/// Chunks kept behind the car's current chunk.
pub const WORLD_CHUNKS_BEHIND: i32 = 1;

/// Chunks kept ahead of the car's current chunk.
pub const WORLD_CHUNKS_AHEAD: i32 = 6;

/// Temporary post-composite diagnostics, selected by the `LANE_DEBUG_POST`
/// environment variable.
#[derive(Clone, Copy, Debug, PartialEq, Eq, Structural)]
pub enum DebugPostMode {
    Off,
    Mask,
    Planar,
    ReflTex,
}

/// The diagnostics mode named by the value of `LANE_DEBUG_POST` (`None` when
/// the variable is unset or not valid text): `mask`, `planar` and `refltex`
/// select a view; anything else turns diagnostics off.
pub open spec fn spec_debug_post_mode(value: Option<Seq<u8>>) -> DebugPostMode {
    match value {
        Some(v) => if v == seq![109u8, 97, 115, 107] {
            DebugPostMode::Mask
        } else if v == seq![112u8, 108, 97, 110, 97, 114] {
            DebugPostMode::Planar
        } else if v == seq![114u8, 101, 102, 108, 116, 101, 120] {
            DebugPostMode::ReflTex
        } else {
            DebugPostMode::Off
        },
        None => DebugPostMode::Off,
    }
}

fn bytes_equal(a: &[u8], b: &[u8]) -> (eq: bool)
    ensures
        eq == (a@ == b@),
{
    if a.len() != b.len() {
        return false;
    }
    let mut i: usize = 0;
    while i < a.len()
        invariant
            a@.len() == b@.len(),
            i <= a@.len(),
            forall|k: int| 0 <= k < i ==> a@[k] == b@[k],
        decreases a@.len() - i,
    {
        if a[i] != b[i] {
            return false;
        }
        i = i + 1;
    }
    assert(a@ =~= b@);
    true
}

/// Parses the value of `LANE_DEBUG_POST` (its bytes, or `None` when unset).
pub fn debug_post_mode_from(value: Option<&[u8]>) -> (mode: DebugPostMode)
    ensures
        mode == spec_debug_post_mode(
            match value {
                Some(v) => Some(v@),
                None => None,
            },
        ),
{
    match value {
        Some(v) => {
            let mask: [u8; 4] = [109u8, 97, 115, 107];
            let planar: [u8; 6] = [112u8, 108, 97, 110, 97, 114];
            let refltex: [u8; 7] = [114u8, 101, 102, 108, 116, 101, 120];
            assert(mask@ =~= seq![109u8, 97, 115, 107]);
            assert(planar@ =~= seq![112u8, 108, 97, 110, 97, 114]);
            assert(refltex@ =~= seq![114u8, 101, 102, 108, 116, 101, 120]);
            if bytes_equal(v, mask.as_slice()) {
                DebugPostMode::Mask
            } else if bytes_equal(v, planar.as_slice()) {
                DebugPostMode::Planar
            } else if bytes_equal(v, refltex.as_slice()) {
                DebugPostMode::ReflTex
            } else {
                DebugPostMode::Off
            }
        },
        None => DebugPostMode::Off,
    }
}

/// The on/off post-processing effects chosen in the graphics settings.
#[derive(Clone, Copy, Debug, PartialEq, Eq, Structural)]
pub struct FxToggles {
    pub fxaa: bool,
    pub bloom: bool,
    pub vignette: bool,
    pub grain: bool,
    pub saturation: bool,
    pub chroma: bool,
    /// Wet-lens rain droplets (visible only when the weather is wet).
    pub rain_fx: bool,
}

/// The post-composite flag word: one bit per enabled effect, the reflection bit
/// when puddle reflections are on, and the bit of the active diagnostics view.
pub open spec fn spec_post_flags(fx: FxToggles, reflect: bool, debug: DebugPostMode) -> u32 {
    (if fx.fxaa { POST_FXAA } else { 0 }) | (if fx.bloom { POST_BLOOM } else { 0 }) | (if fx.vignette {
        POST_VIGNETTE
    } else {
        0
    }) | (if fx.grain { POST_GRAIN } else { 0 }) | (if fx.saturation {
        POST_SATURATION
    } else {
        0
    }) | (if fx.chroma { POST_CHROMA } else { 0 }) | (if fx.rain_fx { POST_RAINDROPS } else { 0 }) | (
    if reflect {
        POST_REFLECT
    } else {
        0
    }) | (match debug {
        DebugPostMode::Mask => POST_DEBUG_MASK,
        DebugPostMode::Planar => POST_DEBUG_PLANAR,
        DebugPostMode::ReflTex => POST_DEBUG_REFLTEX,
        DebugPostMode::Off => 0,
    })
}

/// Builds the post-composite flag word for this frame.
pub fn post_flags(fx: &FxToggles, reflect: bool, debug: DebugPostMode) -> (flags: u32)
    ensures
        flags == spec_post_flags(*fx, reflect, debug),
{
    (if fx.fxaa { POST_FXAA } else { 0 }) | (if fx.bloom { POST_BLOOM } else { 0 }) | (if fx.vignette {
        POST_VIGNETTE
    } else {
        0
    }) | (if fx.grain { POST_GRAIN } else { 0 }) | (if fx.saturation {
        POST_SATURATION
    } else {
        0
    }) | (if fx.chroma { POST_CHROMA } else { 0 }) | (if fx.rain_fx { POST_RAINDROPS } else { 0 }) | (
    if reflect {
        POST_REFLECT
    } else {
        0
    }) | (match debug {
        DebugPostMode::Mask => POST_DEBUG_MASK,
        DebugPostMode::Planar => POST_DEBUG_PLANAR,
        DebugPostMode::ReflTex => POST_DEBUG_REFLTEX,
        DebugPostMode::Off => 0,
    })
}

/// Each effect owns its own bit of the flag word: a bit is set exactly when
/// its effect is on, so the composite can switch every effect independently.
pub proof fn law_post_flag_bits(fx: FxToggles, reflect: bool, debug: DebugPostMode)
    ensures
        (spec_post_flags(fx, reflect, debug) & POST_FXAA != 0) == fx.fxaa,
        (spec_post_flags(fx, reflect, debug) & POST_BLOOM != 0) == fx.bloom,
        (spec_post_flags(fx, reflect, debug) & POST_VIGNETTE != 0) == fx.vignette,
        (spec_post_flags(fx, reflect, debug) & POST_GRAIN != 0) == fx.grain,
        (spec_post_flags(fx, reflect, debug) & POST_SATURATION != 0) == fx.saturation,
        (spec_post_flags(fx, reflect, debug) & POST_CHROMA != 0) == fx.chroma,
        (spec_post_flags(fx, reflect, debug) & POST_RAINDROPS != 0) == fx.rain_fx,
        (spec_post_flags(fx, reflect, debug) & POST_REFLECT != 0) == reflect,
        (spec_post_flags(fx, reflect, debug) & POST_DEBUG_MASK != 0) == (debug == DebugPostMode::Mask),
        (spec_post_flags(fx, reflect, debug) & POST_DEBUG_PLANAR != 0) == (debug
            == DebugPostMode::Planar),
        (spec_post_flags(fx, reflect, debug) & POST_DEBUG_REFLTEX != 0) == (debug
            == DebugPostMode::ReflTex),
        spec_post_flags(fx, reflect, debug) < 0x0800,
{
    let a: u32 = if fx.fxaa { POST_FXAA } else { 0 };
    let b: u32 = if fx.bloom { POST_BLOOM } else { 0 };
    let c: u32 = if fx.vignette { POST_VIGNETTE } else { 0 };
    let g: u32 = if fx.grain { POST_GRAIN } else { 0 };
    let s: u32 = if fx.saturation { POST_SATURATION } else { 0 };
    let h: u32 = if fx.chroma { POST_CHROMA } else { 0 };
    let r: u32 = if fx.rain_fx { POST_RAINDROPS } else { 0 };
    let e: u32 = if reflect { POST_REFLECT } else { 0 };
    let d: u32 = match debug {
        DebugPostMode::Mask => POST_DEBUG_MASK,
        DebugPostMode::Planar => POST_DEBUG_PLANAR,
        DebugPostMode::ReflTex => POST_DEBUG_REFLTEX,
        DebugPostMode::Off => 0,
    };
    let f = spec_post_flags(fx, reflect, debug);
    assert(f == a | b | c | g | s | h | r | e | d);
    assert({
        &&& (a == 0 || a == 1u32) && (b == 0 || b == 2u32) && (c == 0 || c == 4u32)
        &&& (g == 0 || g == 8u32) && (s == 0 || s == 16u32) && (h == 0 || h == 32u32)
        &&& (r == 0 || r == 64u32) && (e == 0 || e == 128u32)
        &&& (d == 0 || d == 256u32 || d == 512u32 || d == 1024u32)
    } ==> {
        let f = a | b | c | g | s | h | r | e | d;
        &&& (f & 1u32 != 0) == (a != 0) && (f & 2u32 != 0) == (b != 0) && (f & 4u32 != 0) == (c != 0)
        &&& (f & 8u32 != 0) == (g != 0) && (f & 16u32 != 0) == (s != 0) && (f & 32u32 != 0) == (h
            != 0)
        &&& (f & 64u32 != 0) == (r != 0) && (f & 128u32 != 0) == (e != 0)
        &&& (f & 256u32 != 0) == (d == 256u32) && (f & 512u32 != 0) == (d == 512u32)
        &&& (f & 1024u32 != 0) == (d == 1024u32)
        &&& f < 2048u32
    }) by (bit_vector);
}

/// Swapchain pixel layouts the window capture understands.
#[derive(Clone, Copy, Debug, PartialEq, Eq, Structural)]
pub enum CaptureFormat {
    /// 8-bit blue-green-red-alpha (unorm or sRGB).
    Bgra8,
    /// 8-bit red-green-blue-alpha (unorm or sRGB).
    Rgba8,
    /// 16-bit float red-green-blue-alpha.
    Rgba16Float,
    /// Anything else.
    Unsupported,
}

/// Readback bytes per pixel of a capturable format, `None` when the format
/// cannot be captured.
pub fn capture_bytes_per_pixel(format: CaptureFormat) -> (bpp: Option<u64>)
    ensures
        bpp == match format {
            CaptureFormat::Bgra8 | CaptureFormat::Rgba8 => Some(4u64),
            CaptureFormat::Rgba16Float => Some(8u64),
            CaptureFormat::Unsupported => None::<u64>,
        },
{
    match format {
        CaptureFormat::Bgra8 | CaptureFormat::Rgba8 => Some(4),
        CaptureFormat::Rgba16Float => Some(8),
        CaptureFormat::Unsupported => None,
    }
}

/// Reorders every complete 4-byte pixel from blue-green-red-alpha to
/// red-green-blue-alpha; a trailing partial pixel is dropped.
pub open spec fn spec_swizzle_bgra(bytes: Seq<u8>) -> Seq<u8> {
    Seq::new(
        (bytes.len() / 4) * 4,
        |i: int|
            {
                let base = i - i % 4;
                let c = i % 4;
                if c == 3 {
                    bytes[i]
                } else {
                    bytes[base + 2 - c]
                }
            },
    )
}

/// Converts a blue-green-red-alpha readback into red-green-blue-alpha pixels.
pub fn swizzle_bgra_to_rgba(bytes: &[u8]) -> (out: Vec<u8>)
    ensures
        out@ == spec_swizzle_bgra(bytes@),
{
    let n = bytes.len() / 4;
    assert(4 * n <= bytes@.len()) by (nonlinear_arith)
        requires
            n == bytes@.len() / 4,
    ;
    let mut out: Vec<u8> = Vec::with_capacity(4 * n);
    let mut p: usize = 0;
    while p < n
        invariant
            n == bytes@.len() / 4,
            4 * n <= bytes.len(),
            p <= n,
            out@.len() == 4 * p,
            forall|i: int| 0 <= i < 4 * p ==> out@[i] == #[trigger] spec_swizzle_bgra(bytes@)[i],
        decreases n - p,
    {
        let b = bytes[4 * p];
        let g = bytes[4 * p + 1];
        let r = bytes[4 * p + 2];
        let a = bytes[4 * p + 3];
        out.push(r);
        out.push(g);
        out.push(b);
        out.push(a);
        p = p + 1;
    }
    assert(out@ =~= spec_swizzle_bgra(bytes@));
    out
}

/// Swizzling twice restores every complete pixel of the readback: the
/// blue-red exchange is its own inverse.
pub proof fn law_swizzle_is_involution(bytes: Seq<u8>)
    ensures
        spec_swizzle_bgra(spec_swizzle_bgra(bytes)) == bytes.subrange(0, ((bytes.len() / 4) * 4) as int),
{
    let once = spec_swizzle_bgra(bytes);
    assert(once.len() / 4 * 4 == once.len());
    assert(spec_swizzle_bgra(once) =~= bytes.subrange(0, ((bytes.len() / 4) * 4) as int));
}

/// Swapchain presentation modes.
#[derive(Clone, Copy, Debug, PartialEq, Eq, Structural)]
pub enum PresentMode {
    Immediate,
    Mailbox,
    Fifo,
    FifoRelaxed,
    /// A mode outside the four above, by its raw Vulkan value.
    Other(i32),
}

/// The present mode the swapchain uses: the requested one when the surface
/// supports it, FIFO (which every surface supports) otherwise.
pub fn choose_present_mode(requested: PresentMode, supported: &[PresentMode]) -> (mode: PresentMode)
    ensures
        supported@.contains(requested) ==> mode == requested,
        !supported@.contains(requested) ==> mode == PresentMode::Fifo,
{
    let mut i: usize = 0;
    while i < supported.len()
        invariant
            i <= supported@.len(),
            forall|k: int| 0 <= k < i ==> supported@[k] != requested,
        decreases supported@.len() - i,
    {
        if supported[i] == requested {
            return requested;
        }
        i = i + 1;
    }
    PresentMode::Fifo
}

/// The swapchain image count to ask for: at least three images under Mailbox
/// (with two it behaves exactly like FIFO), capped at the surface maximum
/// when there is one; the surface minimum otherwise.
pub fn swapchain_min_image_count(mode: PresentMode, caps_min: u32, caps_max: Option<u32>) -> (n: u32)
    ensures
        mode == PresentMode::Mailbox ==> n == ({
            let lo = if caps_min > 3 { caps_min } else { 3 };
            match caps_max {
                Some(hi) => if lo < hi { lo } else { hi },
                None => lo,
            }
        }),
        mode != PresentMode::Mailbox ==> n == caps_min,
{
    if mode == PresentMode::Mailbox {
        let lo = if caps_min > 3 { caps_min } else { 3 };
        let hi = match caps_max {
            Some(h) => h,
            None => u32::MAX,
        };
        if lo < hi { lo } else { hi }
    } else {
        caps_min
    }
}

/// What the window presenter does about a one-shot capture this frame.
#[derive(Clone, Copy, Debug, PartialEq, Eq, Structural)]
pub enum CaptureDecision {
    /// No capture was requested.
    NotRequested,
    /// The swapchain images cannot be copied out; the capture fails.
    NoTransferSource,
    /// The swapchain format cannot be captured; the capture fails.
    UnsupportedFormat,
    /// Copy the presented image into a host buffer of this many bytes.
    Readback { bytes: u64 },
}

/// Bytes of a host readback of a `extent` image at `bpp` bytes per pixel.
pub open spec fn spec_readback_len(extent: [u32; 2], bpp: u64) -> int {
    extent[0] * extent[1] * bpp
}

/// Size of the host buffer that receives a readback of an `extent` image.
pub fn readback_len(extent: [u32; 2], bpp: u64) -> (n: u64)
    requires
        spec_readback_len(extent, bpp) <= u64::MAX,
    ensures
        n == spec_readback_len(extent, bpp),
{
    let w = extent[0] as u64;
    let h = extent[1] as u64;
    assert(w * h <= u64::MAX) by (nonlinear_arith)
        requires
            w <= u32::MAX,
            h <= u32::MAX,
    ;
    let pixels = w * h;
    proof {
        assert(pixels as int == extent[0] * extent[1]);
        if bpp > 0 {
            assert(pixels <= pixels * bpp) by (nonlinear_arith)
                requires
                    bpp >= 1,
            ;
        }
    }
    pixels * bpp
}

/// Decides the capture work of a frame: nothing without a request; a failure
/// when the swapchain cannot be a copy source or its format cannot be
/// captured; otherwise a readback of the whole presented image.
pub fn capture_decision(
    requested: bool,
    can_transfer: bool,
    format: CaptureFormat,
    extent: [u32; 2],
) -> (d: CaptureDecision)
    requires
        spec_readback_len(extent, 8) <= u64::MAX,
    ensures
        !requested ==> d == CaptureDecision::NotRequested,
        requested && !can_transfer ==> d == CaptureDecision::NoTransferSource,
        requested && can_transfer && format == CaptureFormat::Unsupported ==> d
            == CaptureDecision::UnsupportedFormat,
        requested && can_transfer && format != CaptureFormat::Unsupported ==> d
            == (CaptureDecision::Readback {
            bytes: spec_readback_len(
                extent,
                if format == CaptureFormat::Rgba16Float {
                    8
                } else {
                    4
                },
            ) as u64,
        }),
{
    if !requested {
        return CaptureDecision::NotRequested;
    }
    if !can_transfer {
        return CaptureDecision::NoTransferSource;
    }
    match capture_bytes_per_pixel(format) {
        None => CaptureDecision::UnsupportedFormat,
        Some(bpp) => {
            proof {
                assert(spec_readback_len(extent, bpp) <= spec_readback_len(extent, 8)) by (
                nonlinear_arith)
                    requires
                        bpp <= 8,
                        extent[0] >= 0,
                        extent[1] >= 0,
                ;
            }
            CaptureDecision::Readback { bytes: readback_len(extent, bpp) }
        },
    }
}

} // verus!
