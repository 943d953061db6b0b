use lane_lunacy::render::cloud::{
    generate_cloud_tile, generate_foliage_tile, generate_rock_tile, lattice_bits, octave_plan,
};
use lane_lunacy::render::flare::{generate_flare_streak, generate_sun_core};
use lane_lunacy::render::particles::{cloud_sprite_draws, generate_cloud_sprite, generate_soft_sprite};

// Float shading used by the game for the procedural textures; the library
// bakes the texel layout around it.

fn smoothstep5(t: f32) -> f32 {
    t * t * t * (t * (t * 6.0 - 15.0) + 10.0)
}

fn smoothstep(t: f32) -> f32 {
    let x = t.clamp(0.0, 1.0);
    x * x * (3.0 - 2.0 * x)
}

fn cell(seed: u64, cells: i32, x: i32, y: i32) -> f32 {
    lattice_bits(seed, cells, x, y) as f32 / 16_777_215.0
}

fn value_noise(seed: u64, cells: i32, fx: f32, fy: f32) -> f32 {
    let xi = fx.floor() as i32;
    let yi = fy.floor() as i32;
    let tx = smoothstep5(fx - xi as f32);
    let ty = smoothstep5(fy - yi as f32);
    let a = cell(seed, cells, xi, yi);
    let b = cell(seed, cells, xi + 1, yi);
    let c = cell(seed, cells, xi, yi + 1);
    let d = cell(seed, cells, xi + 1, yi + 1);
    let ab = a + (b - a) * tx;
    let cd = c + (d - c) * tx;
    ab + (cd - ab) * ty
}

fn fbm(seed: u64, size: u32, x: f32, y: f32, base_cells: i32, octaves: u32) -> f32 {
    let mut sum = 0.0;
    let mut amp = 1.0;
    let mut norm = 0.0;
    for (s, cells) in octave_plan(seed, size, base_cells, octaves) {
        let fx = (x / size as f32) * cells as f32;
        let fy = (y / size as f32) * cells as f32;
        sum += amp * value_noise(s, cells, fx, fy);
        norm += amp;
        amp *= 0.58;
    }
    sum / norm
}

fn foliage_texel(seed: u64, size: u32, px: u32, py: u32) -> (u8, u8, u8) {
    let (x, y) = (px as f32, py as f32);
    let n1 = fbm(seed, size, x + 11.0, y + 5.0, 6, 4);
    let n2 = fbm(seed ^ 0x5DEECE66D, size, x * 1.7 + 3.0, y * 1.7 + 9.0, 10, 3);
    let n3 = fbm(seed ^ 0xDEADBEEF, size, x * 3.1 + 31.0, y * 3.1 + 17.0, 18, 2);
    let r = (0.30 + 0.18 * (n1 - 0.5) + 0.06 * (n3 - 0.5)) * 255.0;
    let g = (0.55 + 0.22 * (n1 - 0.5) + 0.10 * (n2 - 0.5) + 0.05 * (n3 - 0.5)) * 255.0;
    let b = (0.22 + 0.14 * (n1 - 0.5) + 0.05 * (n3 - 0.5)) * 255.0;
    (r.clamp(0.0, 255.0) as u8, g.clamp(0.0, 255.0) as u8, b.clamp(0.0, 255.0) as u8)
}

fn rock_texel(seed: u64, size: u32, px: u32, py: u32) -> (u8, u8, u8) {
    let (x, y) = (px as f32, py as f32);
    let strata = fbm(seed, size, x * 0.4 + 3.0, y * 1.3 + 11.0, 4, 3);
    let n1 = fbm(seed ^ 0x9E3779B9, size, x + 17.0, y + 3.0, 8, 3);
    let n2 = fbm(seed ^ 0x5DEECE66D, size, x * 2.3 + 5.0, y * 2.3 + 7.0, 14, 2);
    let g = 0.44 + 0.10 * (strata - 0.5) + 0.05 * (n1 - 0.5) + 0.04 * (n2 - 0.5);
    let r = g + 0.02 * (n1 - 0.5);
    let b = g - 0.02 * (n2 - 0.5);
    (
        (r * 255.0).clamp(0.0, 255.0) as u8,
        (g * 255.0).clamp(0.0, 255.0) as u8,
        (b * 255.0).clamp(0.0, 255.0) as u8,
    )
}

fn cloud_cover(seed: u64, size: u32, px: u32, py: u32) -> (u8, u8) {
    let warp = size as f32 * 0.05;
    let warp_seed = seed
        .wrapping_mul(0x9E3779B97F4A7C15)
        .wrapping_add(0xBF58476D1CE4E5B9);
    let (x, y) = (px as f32, py as f32);
    let wx = fbm(warp_seed, size, x, y, 2, 3);
    let wy = fbm(warp_seed ^ 0xDEADBEEF, size, x + 37.3, y + 91.7, 2, 3);
    let sx = x + (wx - 0.5) * warp;
    let sy = y + (wy - 0.5) * warp;
    let base = fbm(seed, size, sx, sy, 8, 4);
    let detail = fbm(seed ^ 0xA5A5_A5A5_F0F0_F0F0, size, sx * 1.73 + 19.0, sy * 1.53 + 7.0, 12, 3);
    let shape = (base * 0.8 + detail * 0.2).clamp(0.0, 1.0);
    let cov = smoothstep((shape - 0.45) / (0.75 - 0.45));
    ((220.0 + cov * 35.0) as u8, (cov * 255.0) as u8)
}

fn sun_core_alpha(size: u32, x: u32, y: u32) -> u8 {
    let size = size as f32;
    let r0 = size * 0.20;
    let dx = (x as f32 + 0.5) - size * 0.5;
    let dy = (y as f32 + 0.5) - size * 0.5;
    let d = (dx * dx + dy * dy).sqrt();
    let a = (-(d / r0) * (d / r0)).exp();
    let a = a * a;
    (a * 255.0) as u8
}

fn streak_alpha(w: u32, h: u32, x: u32, y: u32) -> u8 {
    let (w, h) = (w as f32, h as f32);
    let sx = w * 0.45;
    let sy = h * 0.30;
    let dx = (x as f32 + 0.5) - w * 0.5;
    let dy = (y as f32 + 0.5) - h * 0.5;
    let a = (-(dx / sx) * (dx / sx)).exp() * (-(dy / sy) * (dy / sy)).exp();
    (a * 255.0) as u8
}

fn soft_alpha(size: u32, px: u32, py: u32) -> u8 {
    let n = size as f32;
    let center = (n - 1.0) * 0.5;
    let radius = n * 0.5;
    let falloff = 4.0 / (radius * radius);
    let dx = px as f32 - center;
    let dy = py as f32 - center;
    let d2 = dx * dx + dy * dy;
    let a = (-d2 * falloff).exp();
    (a * 255.0) as u8
}

fn unit(d: u64) -> f32 {
    d as f32 / u64::MAX as f32
}

fn cloud_blobs(seed: u64) -> Vec<(f32, f32, f32)> {
    let d = cloud_sprite_draws(seed);
    let mut blobs = vec![(0.0, 0.0, 0.30 + unit(d[0]) * 0.08)];
    blobs.push((
        (unit(d[1]) - 0.5) * 0.36,
        (unit(d[2]) - 0.5) * 0.36,
        0.18 + unit(d[3]) * 0.10,
    ));
    for i in 0..6 {
        let k = 4 + 3 * i;
        blobs.push((
            (unit(d[k]) - 0.5) * 0.8,
            (unit(d[k + 1]) - 0.5) * 0.8,
            0.15 + unit(d[k + 2]) * 0.20,
        ));
    }
    blobs
}

fn cloud_sprite_shade(blobs: &[(f32, f32, f32)], size: u32, px: u32, py: u32) -> (u8, u8) {
    let n = size as f32;
    let center = (n - 1.0) * 0.5;
    let radius = n * 0.5;
    let nx = (px as f32 - center) / radius;
    let ny = (py as f32 - center) / radius;
    if nx.abs() > 0.92 || ny.abs() > 0.92 {
        return (255, 0);
    }
    let mut d = 0.0;
    for &(bx, by, br) in blobs {
        let dx = nx - bx;
        let dy = ny - by;
        d += (-(dx * dx + dy * dy) / (br * br)).exp();
    }
    let a = 1.0 - (-d * 2.2).exp();
    let shade = 0.72 + 0.28 * d / (d + 0.8);
    let c = (255.0 * shade).clamp(0.0, 255.0);
    (c as u8, (a * 255.0) as u8)
}

fn foliage(size: u32, seed: u64) -> Vec<u8> {
    generate_foliage_tile(size, |x, y| foliage_texel(seed, size, x, y))
}

fn rock(size: u32, seed: u64) -> Vec<u8> {
    generate_rock_tile(size, |x, y| rock_texel(seed, size, x, y))
}

#[test]
fn foliage_tile_is_opaque_green_noise() {
    let size = 64u32;
    let tile = foliage(size, 7);
    assert_eq!(tile.len(), (size * size * 4) as usize);
    let mut green_biased = true;
    for px in tile.chunks_exact(4).step_by(64) {
        assert_eq!(px[3], 255, "foliage is opaque");
        green_biased &= px[1] >= px[0] && px[1] >= px[2];
    }
    assert!(green_biased, "foliage tile reads green");
}

#[test]
fn rock_tile_is_opaque_neutral_grey_noise() {
    let size = 64u32;
    let tile = rock(size, 7);
    assert_eq!(tile.len(), (size * size * 4) as usize);
    for px in tile.chunks_exact(4).step_by(64) {
        assert_eq!(px[3], 255, "rock is opaque");
        // Neutral grey: channels close together, mid luminance.
        let (r, g, b) = (px[0] as i16, px[1] as i16, px[2] as i16);
        assert!(
            (r - g).abs() <= 12 && (b - g).abs() <= 12,
            "rock must read neutral grey, got ({r},{g},{b})"
        );
        assert!((80..=170).contains(&g), "rock luminance mid-range");
    }
}

#[test]
fn rock_tile_is_deterministic_per_seed() {
    let a = rock(32, 9);
    let b = rock(32, 9);
    let c = rock(32, 10);
    assert_eq!(a, b, "same seed -> same tile");
    assert_ne!(a, c, "different seed -> different tile");
}

#[test]
fn sprite_textures_are_opaque_in_the_middle() {
    let core = generate_sun_core(64, |x, y| sun_core_alpha(64, x, y));
    let mid = (64 * 32 + 32) * 4;
    assert!(core[mid + 3] > 250, "core is near-opaque at its center");
    let streak = generate_flare_streak(256, 32, |x, y| streak_alpha(256, 32, x, y));
    let smid = (16 * 256 + 128) * 4;
    assert!(streak[smid + 3] > 250, "streak is near-opaque at its center");
}

#[test]
fn cloud_sprites_are_opaque_in_the_middle_and_transparent_at_the_rim() {
    let blobs = cloud_blobs(42);
    let sprite = generate_cloud_sprite(128, |x, y| cloud_sprite_shade(&blobs, 128, x, y));
    let n = 128usize;
    let max_alpha = sprite.chunks_exact(4).map(|px| px[3]).max().unwrap_or(0) as f32 / 255.0;
    assert!(max_alpha > 0.9, "the cloud core is dense: {max_alpha}");
    // Rim texels must be fully transparent so atlas cells don't bleed.
    for (px, py) in [(0usize, 0usize), (n - 1, 0), (0, n - 1), (n - 1, n - 1)] {
        let idx = (py * n + px) * 4 + 3;
        assert_eq!(sprite[idx], 0, "rim texel must be transparent");
    }
}

#[test]
fn sun_core_and_streak_carry_their_tints() {
    let core = generate_sun_core(8, |x, y| (x * 8 + y) as u8);
    assert_eq!(core.len(), 8 * 8 * 4);
    for (i, px) in core.chunks_exact(4).enumerate() {
        assert_eq!(&px[..3], &[255, 248, 235]);
        let (x, y) = ((i % 8) as u32, (i / 8) as u32);
        assert_eq!(px[3], (x * 8 + y) as u8);
    }
    let streak = generate_flare_streak(5, 3, |x, y| (10 * y + x) as u8);
    assert_eq!(streak.len(), 5 * 3 * 4);
    assert_eq!(&streak[..4], &[255, 243, 220, 0]);
    // texel (x = 4, y = 2) is the last one
    assert_eq!(&streak[56..60], &[255, 243, 220, 24]);
}

#[test]
fn soft_sprite_is_white_with_a_bright_center() {
    let sprite = generate_soft_sprite(16, |x, y| soft_alpha(16, x, y));
    assert_eq!(sprite.len(), 16 * 16 * 4);
    assert!(sprite.chunks_exact(4).all(|px| px[..3] == [255, 255, 255]));
    let center = (8 * 16 + 8) * 4 + 3;
    let corner = 3;
    assert!(sprite[center] > 200);
    assert!(sprite[corner] < sprite[center]);
}

#[test]
fn cloud_tile_is_grey_and_wraps_seamlessly() {
    let tile = generate_cloud_tile(32, |x, y| cloud_cover(5, 32, x, y));
    assert_eq!(tile.len(), 32 * 32 * 4);
    assert!(tile.chunks_exact(4).all(|px| px[0] == px[1] && px[1] == px[2] && px[0] >= 220));
    // the lattice the tile samples repeats with its size
    for cells in [2, 8, 12] {
        assert_eq!(lattice_bits(5, cells, -1, 3), lattice_bits(5, cells, cells - 1, 3));
        assert_eq!(lattice_bits(5, cells, 4, cells + 1), lattice_bits(5, cells, 4, 1));
    }
}

#[test]
fn zero_sized_textures_are_empty() {
    assert!(generate_soft_sprite(0, |_, _| 1).is_empty());
    assert!(generate_flare_streak(0, 7, |_, _| 1).is_empty());
    assert!(generate_rock_tile(0, |_, _| (1, 2, 3)).is_empty());
}

#[test]
fn octave_plan_doubles_lattices_until_finer_than_the_tile() {
    let plan = octave_plan(1, 64, 12, 4);
    let cells: Vec<i32> = plan.iter().map(|&(_, c)| c).collect();
    assert_eq!(cells, vec![12, 24, 48]);
    assert_eq!(plan[0].0, 1);
    assert_eq!(
        plan[1].0,
        1u64.wrapping_mul(6364136223846793005).wrapping_add(1442695040888963407)
    );
    assert!(octave_plan(1, 4, 8, 3).is_empty());
}

#[test]
fn cloud_sprite_draws_follow_the_xorshift_sequence() {
    let d = cloud_sprite_draws(42);
    assert_eq!(d.len(), 22);
    let mut s: u64 = 42 | 1;
    for &v in &d {
        s ^= s << 13;
        s ^= s >> 7;
        s ^= s << 17;
        assert_eq!(v, s);
    }
}

#[test]
fn octave_plan_allows_many_octaves_when_the_lattice_outgrows_the_tile() {
    let plan = octave_plan(1, 64, 8, 100);
    let cells: Vec<i32> = plan.iter().map(|&(_, c)| c).collect();
    assert_eq!(cells, vec![8, 16, 32, 64]);
    assert_eq!(plan, octave_plan(1, 64, 8, 4));
}
