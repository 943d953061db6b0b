use lane_lunacy::render::drive::{drive_gear_up, drive_status_due};
use lane_lunacy::render::particles::Rng;
use lane_lunacy::render::pipeline::{Blend, Depth};
use lane_lunacy::render::post::{bloom_extents, BLOOM_LEVELS};
use lane_lunacy::render::reflection::{
    puddle_quality_profile, reflection_extent, PuddleQualityProfile, ReflectionMethod,
    ReflectionState,
};
use lane_lunacy::render::scene::{pack_world_atlas, AtlasSlot, ATLAS_GUTTER};
use lane_lunacy::render::{
    capture_bytes_per_pixel, capture_decision, readback_len, CaptureDecision, choose_present_mode, debug_post_mode_from, post_flags,
    swapchain_min_image_count, swizzle_bgra_to_rgba, CaptureFormat, DebugPostMode, FxToggles,
    PresentMode,
};
use lane_lunacy::shaders::{
    spv_words, POST_BLOOM, POST_DEBUG_MASK, POST_DEBUG_REFLTEX, POST_FXAA, POST_RAINDROPS,
    POST_REFLECT,
};

#[test]
fn spv_words_reads_little_endian_words() {
    let bytes = [0x03, 0x02, 0x23, 0x07, 0x00, 0x00, 0x01, 0x00, 0xff];
    assert_eq!(spv_words(&bytes), vec![0x0723_0203, 0x0001_0000]);
    assert!(spv_words(&[1, 2, 3]).is_empty());
    assert!(spv_words(&[]).is_empty());
}

#[test]
fn debug_post_mode_parses_the_known_views() {
    assert_eq!(debug_post_mode_from(Some(b"mask")), DebugPostMode::Mask);
    assert_eq!(debug_post_mode_from(Some(b"planar")), DebugPostMode::Planar);
    assert_eq!(debug_post_mode_from(Some(b"refltex")), DebugPostMode::ReflTex);
    assert_eq!(debug_post_mode_from(Some(b"MASK")), DebugPostMode::Off);
    assert_eq!(debug_post_mode_from(Some(b"")), DebugPostMode::Off);
    assert_eq!(debug_post_mode_from(None), DebugPostMode::Off);
}

#[test]
fn post_flags_set_one_bit_per_effect() {
    let none = FxToggles {
        fxaa: false,
        bloom: false,
        vignette: false,
        grain: false,
        saturation: false,
        chroma: false,
        rain_fx: false,
    };
    assert_eq!(post_flags(&none, false, DebugPostMode::Off), 0);
    let some = FxToggles { fxaa: true, bloom: true, rain_fx: true, ..none };
    assert_eq!(
        post_flags(&some, true, DebugPostMode::Mask),
        POST_FXAA | POST_BLOOM | POST_RAINDROPS | POST_REFLECT | POST_DEBUG_MASK
    );
    let all = FxToggles {
        fxaa: true,
        bloom: true,
        vignette: true,
        grain: true,
        saturation: true,
        chroma: true,
        rain_fx: true,
    };
    assert_eq!(post_flags(&all, true, DebugPostMode::ReflTex), 0xff | POST_DEBUG_REFLTEX);
}

#[test]
fn capture_formats_and_swizzle() {
    assert_eq!(capture_bytes_per_pixel(CaptureFormat::Bgra8), Some(4));
    assert_eq!(capture_bytes_per_pixel(CaptureFormat::Rgba8), Some(4));
    assert_eq!(capture_bytes_per_pixel(CaptureFormat::Rgba16Float), Some(8));
    assert_eq!(capture_bytes_per_pixel(CaptureFormat::Unsupported), None);
    let bgra = [1, 2, 3, 4, 5, 6, 7, 8, 9];
    let rgba = swizzle_bgra_to_rgba(&bgra);
    assert_eq!(rgba, vec![3, 2, 1, 4, 7, 6, 5, 8]);
    assert_eq!(swizzle_bgra_to_rgba(&rgba), vec![1, 2, 3, 4, 5, 6, 7, 8]);
}

#[test]
fn present_mode_falls_back_to_fifo() {
    let supported = [PresentMode::Fifo, PresentMode::Mailbox];
    assert_eq!(choose_present_mode(PresentMode::Mailbox, &supported), PresentMode::Mailbox);
    assert_eq!(choose_present_mode(PresentMode::Immediate, &supported), PresentMode::Fifo);
    assert_eq!(choose_present_mode(PresentMode::Other(7), &[PresentMode::Other(7)]), PresentMode::Other(7));
    assert_eq!(swapchain_min_image_count(PresentMode::Mailbox, 2, Some(8)), 3);
    assert_eq!(swapchain_min_image_count(PresentMode::Mailbox, 2, Some(2)), 2);
    assert_eq!(swapchain_min_image_count(PresentMode::Mailbox, 4, None), 4);
    assert_eq!(swapchain_min_image_count(PresentMode::Fifo, 2, Some(8)), 2);
}

#[test]
fn reflection_profiles_and_cadence() {
    assert_eq!(
        puddle_quality_profile(0),
        PuddleQualityProfile { enabled: false, reflection_scale_div: 1, reflection_cadence: 1 }
    );
    assert_eq!(
        puddle_quality_profile(1),
        PuddleQualityProfile { enabled: true, reflection_scale_div: 4, reflection_cadence: 2 }
    );
    assert_eq!(puddle_quality_profile(2).reflection_scale_div, 2);
    assert_eq!(puddle_quality_profile(9).reflection_scale_div, 1);

    let low = puddle_quality_profile(1);
    let mut st = ReflectionState::new();
    let f1 = st.frame(low, true);
    assert_eq!(f1.resize_to, Some(4));
    assert_eq!(f1.method, ReflectionMethod::Planar);
    assert!(f1.record);
    let f2 = st.frame(low, true);
    assert_eq!(f2.resize_to, None);
    assert!(!f2.record);
    assert!(st.frame(low, true).record);
    assert!(!st.frame(low, false).record);
    assert!(st.frame(low, true).record);
    let off = st.frame(puddle_quality_profile(0), true);
    assert_eq!(off.method, ReflectionMethod::Off);
    assert!(!off.record);
    let high = puddle_quality_profile(3);
    assert_eq!(st.frame(high, true).resize_to, Some(1));
    assert!(st.frame(high, true).record);
    assert!(st.frame(high, true).record);
}

#[test]
fn reflection_and_bloom_extents() {
    assert_eq!(reflection_extent([1280, 720], 4), [320, 180]);
    assert_eq!(reflection_extent([3, 3], 4), [1, 1]);
    assert_eq!(reflection_extent([100, 50], 0), [100, 50]);
    let levels = bloom_extents([1280, 720]);
    assert_eq!(levels.len(), BLOOM_LEVELS);
    assert_eq!(levels, vec![[640, 360], [320, 180], [160, 90]]);
    assert_eq!(bloom_extents([5, 1]), vec![[2, 1], [1, 1], [1, 1]]);
}

#[test]
fn rng_is_deterministic_per_seed_and_never_zero() {
    let mut a = Rng::from_seed(42);
    let mut b = Rng::from_seed(42);
    let mut c = Rng::from_seed(43);
    let xa: Vec<u64> = (0..16).map(|_| a.next()).collect();
    let xb: Vec<u64> = (0..16).map(|_| b.next()).collect();
    let xc: Vec<u64> = (0..16).map(|_| c.next()).collect();
    assert_eq!(xa, xb);
    // 42 | 1 == 43 | 1: both seeds share a generator
    assert_eq!(xa, xc);
    let mut z = Rng::from_seed(0);
    let first = z.next();
    assert_eq!(first, { let mut x: u64 = 1; x ^= x << 13; x ^= x >> 7; x ^= x << 17; x });
    assert!((0..1000).all(|_| z.next() != 0));
    let mut clock = Rng::new().expect("system clock after the epoch");
    assert_ne!(clock.next(), 0);
}

#[test]
fn pipeline_states_compare() {
    assert_eq!(Depth::Test { write: true }, Depth::Test { write: true });
    assert_ne!(Depth::Test { write: true }, Depth::Off);
    assert_ne!(Blend::Alpha, Blend::Additive);
}

#[test]
fn drive_script_shifts_every_half_second_for_four_seconds() {
    let ups: Vec<usize> = (0..600).filter(|&f| drive_gear_up(f)).collect();
    assert_eq!(ups, vec![0, 30, 60, 90, 120, 150, 180, 210]);
    assert!(drive_status_due(0) && drive_status_due(300) && !drive_status_due(301));
}

#[test]
fn world_atlas_pads_slots_with_cloned_edges() {
    let red = AtlasSlot { width: 2, height: 1, pixels: vec![1, 0, 0, 255, 2, 0, 0, 255] };
    let green = AtlasSlot { width: 2, height: 2, pixels: vec![0, 1, 0, 255, 0, 2, 0, 255, 0, 3, 0, 255, 0, 4, 0, 255] };
    let atlas = pack_world_atlas(&[red, green], 1);
    assert_eq!(atlas.width, 8);
    assert_eq!(atlas.height, 2);
    assert_eq!(atlas.pixels.len(), 8 * 2 * 4);
    let texel = |x: usize, y: usize| -> [u8; 4] {
        let i = (y * 8 + x) * 4;
        [atlas.pixels[i], atlas.pixels[i + 1], atlas.pixels[i + 2], atlas.pixels[i + 3]]
    };
    // row 0 of the red slot: gutter, 1, 2, gutter
    assert_eq!(texel(0, 0), [1, 0, 0, 255]);
    assert_eq!(texel(1, 0), [1, 0, 0, 255]);
    assert_eq!(texel(2, 0), [2, 0, 0, 255]);
    assert_eq!(texel(3, 0), [2, 0, 0, 255]);
    // below the red texture: transparent black
    assert_eq!(texel(2, 1), [0, 0, 0, 0]);
    // green slot, second row
    assert_eq!(texel(4, 1), [0, 3, 0, 255]);
    assert_eq!(texel(7, 1), [0, 4, 0, 255]);
    assert_eq!(ATLAS_GUTTER, 8);
}

#[test]
fn capture_decision_checks_request_source_and_format() {
    assert_eq!(readback_len([1280, 720], 8), 1280 * 720 * 8);
    assert_eq!(
        capture_decision(false, false, CaptureFormat::Unsupported, [4, 4]),
        CaptureDecision::NotRequested
    );
    assert_eq!(
        capture_decision(true, false, CaptureFormat::Bgra8, [4, 4]),
        CaptureDecision::NoTransferSource
    );
    assert_eq!(
        capture_decision(true, true, CaptureFormat::Unsupported, [4, 4]),
        CaptureDecision::UnsupportedFormat
    );
    assert_eq!(
        capture_decision(true, true, CaptureFormat::Bgra8, [4, 3]),
        CaptureDecision::Readback { bytes: 48 }
    );
    assert_eq!(
        capture_decision(true, true, CaptureFormat::Rgba16Float, [4, 3]),
        CaptureDecision::Readback { bytes: 96 }
    );
}

#[test]
fn clock_reading_seeds_like_from_seed() {
    let mut a = Rng::from_clock(Some(42)).expect("a reading after the epoch");
    let mut b = Rng::from_seed(42);
    assert_eq!(a.next(), b.next());
    assert!(Rng::from_clock(None).is_none());
}
