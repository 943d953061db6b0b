//! Procedural world tiles: the seamless cloud layer, the foliage tile and the
//! rock tile, plus the integer core of their periodic value noise.
//!
//! The noise lattice wraps its coordinates modulo the lattice size, so every
//! tile built from it repeats seamlessly in both axes.
use vstd::prelude::*;

use crate::render::bake::{bake_rgba, px, px_x, px_y};

verus! {

/// Mixes the wrapped lattice coordinates `(xi, yi)` into the seeded 64-bit
/// lattice hash (a splitmix-style finaliser).
pub open spec fn lattice_hash(seed: u64, xi: u64, yi: u64) -> u64 {
    let h0 = seed.wrapping_add(xi.wrapping_mul(0x9E3779B185EBCA87u64)).wrapping_add(
        yi.wrapping_mul(0xC2B2AE3D27D4EB4Fu64),
    );
    let h1 = h0 ^ (h0 >> 30u64);
    let h2 = h1.wrapping_mul(0xBF58476D1CE4E5B9u64);
    let h3 = h2 ^ (h2 >> 27u64);
    let h4 = h3.wrapping_mul(0x94D049BB133111EBu64);
    h4 ^ (h4 >> 31u64)
}

/// The 24-bit value of lattice point `(x, y)` on a `cells`×`cells` lattice:
/// coordinates wrap with the Euclidean remainder, so the lattice is periodic.
pub open spec fn spec_lattice_bits(seed: u64, cells: i32, x: i32, y: i32) -> u32 {
    let xi = ((x as int) % (cells as int)) as u64;
    let yi = ((y as int) % (cells as int)) as u64;
    (lattice_hash(seed, xi, yi) & 0xFF_FFFFu64) as u32
}

/// Euclidean remainder of `v` by a positive `m`, always in `0..m`.
fn rem_euclid_i32(v: i32, m: i32) -> (r: u64)
    requires
        m > 0,
    ensures
        r == (v as int) % (m as int),
        r < m,
{
    if v >= 0 {
        let r = (v as u64) % (m as u64);
        r
    } else {
        let neg: u64 = (-(v as i64)) as u64;
        let q = neg / (m as u64);
        let rm = neg % (m as u64);
        proof {
            vstd::arithmetic::div_mod::lemma_fundamental_div_mod(neg as int, m as int);
            assert(v as int == -(neg as int));
            assert(-(neg as int) == (-(q as int)) * m - rm) by (nonlinear_arith)
                requires
                    neg as int == m * (q as int) + rm,
            ;
            assert((-(q as int)) * m - m == (-(q as int) - 1) * m) by (nonlinear_arith);
            if rm == 0 {
                vstd::arithmetic::div_mod::lemma_fundamental_div_mod_converse(
                    v as int,
                    m as int,
                    -(q as int),
                    0,
                );
            } else {
                vstd::arithmetic::div_mod::lemma_fundamental_div_mod_converse(
                    v as int,
                    m as int,
                    -(q as int) - 1,
                    m - rm,
                );
            }
        }
        if rm == 0 {
            0
        } else {
            (m as u64) - rm
        }
    }
}

/// The 24-bit noise value of lattice point `(x, y)` on a `cells`×`cells`
/// periodic lattice seeded with `seed`. Dividing it by `0xFF_FFFF` gives the
/// lattice sample in `0..=1`.
pub fn lattice_bits(seed: u64, cells: i32, x: i32, y: i32) -> (v: u32)
    requires
        cells > 0,
    ensures
        v == spec_lattice_bits(seed, cells, x, y),
        v == (lattice_hash(
            seed,
            ((x as int) % (cells as int)) as u64,
            ((y as int) % (cells as int)) as u64,
        ) & 0xFF_FFFFu64) as u32,
        v <= 0xFF_FFFF,
{
    let xi = rem_euclid_i32(x, cells);
    let yi = rem_euclid_i32(y, cells);
    let mut h = seed.wrapping_add(xi.wrapping_mul(0x9E3779B185EBCA87u64)).wrapping_add(
        yi.wrapping_mul(0xC2B2AE3D27D4EB4Fu64),
    );
    h = h ^ (h >> 30u64);
    h = h.wrapping_mul(0xBF58476D1CE4E5B9u64);
    h = h ^ (h >> 27u64);
    h = h.wrapping_mul(0x94D049BB133111EBu64);
    h = h ^ (h >> 31u64);
    let v = h & 0xFF_FFFFu64;
    assert(v <= 0xFF_FFFF) by (bit_vector)
        requires
            v == h & 0xFF_FFFFu64,
    ;
    v as u32
}

/// The noise lattice is periodic: shifting a lattice point by the lattice size
/// along either axis gives the same value, so tiles wrap seamlessly.
pub proof fn law_lattice_is_periodic(seed: u64, cells: i32, x: i32, y: i32)
    requires
        cells > 0,
        x + cells <= i32::MAX,
        y + cells <= i32::MAX,
    ensures
        spec_lattice_bits(seed, cells, (x + cells) as i32, y) == spec_lattice_bits(seed, cells, x, y),
        spec_lattice_bits(seed, cells, x, (y + cells) as i32) == spec_lattice_bits(seed, cells, x, y),
{
    vstd::arithmetic::div_mod::lemma_mod_add_multiples_vanish(x as int, cells as int);
    vstd::arithmetic::div_mod::lemma_mod_add_multiples_vanish(y as int, cells as int);
}

/// Multiplying by `k` and then by `kinv` modulo 2^64 gives the input back
/// when `k * kinv` is one more than a multiple of 2^64.
proof fn lemma_wrapping_mul_cancels(a: u64, k: u64, kinv: u64, t: int)
    requires
        t >= 0,
        (k as int) * (kinv as int) == 1 + t * 0x1_0000_0000_0000_0000,
    ensures
        a.wrapping_mul(k).wrapping_mul(kinv) == a,
{
    let m: int = 0x1_0000_0000_0000_0000;
    let ak: int = (a as int) * (k as int);
    vstd::arithmetic::div_mod::lemma_mul_mod_noop_left(ak, kinv as int, m);
    assert(ak * (kinv as int) == m * ((a as int) * t) + (a as int)) by (nonlinear_arith)
        requires
            ak == (a as int) * (k as int),
            (k as int) * (kinv as int) == 1 + t * m,
    ;
    vstd::arithmetic::div_mod::lemma_mod_multiples_vanish((a as int) * t, a as int, m);
    vstd::arithmetic::div_mod::lemma_small_mod(a as nat, m as nat);
}

/// Two values with equal products by an odd `k` modulo 2^64 are equal.
proof fn lemma_wrapping_mul_injective(a: u64, b: u64, k: u64, kinv: u64, t: int)
    requires
        t >= 0,
        (k as int) * (kinv as int) == 1 + t * 0x1_0000_0000_0000_0000,
        a.wrapping_mul(k) == b.wrapping_mul(k),
    ensures
        a == b,
{
    lemma_wrapping_mul_cancels(a, k, kinv, t);
    lemma_wrapping_mul_cancels(b, k, kinv, t);
}

/// The splitmix finaliser of `lattice_hash` is one-to-one: equal outputs come
/// from equal mixed inputs.
proof fn lemma_finaliser_injective(g0: u64, h0: u64)
    requires
        ({
            let g1 = g0 ^ (g0 >> 30u64);
            let g2 = g1.wrapping_mul(0xBF58476D1CE4E5B9u64);
            let g3 = g2 ^ (g2 >> 27u64);
            let g4 = g3.wrapping_mul(0x94D049BB133111EBu64);
            let h1 = h0 ^ (h0 >> 30u64);
            let h2 = h1.wrapping_mul(0xBF58476D1CE4E5B9u64);
            let h3 = h2 ^ (h2 >> 27u64);
            let h4 = h3.wrapping_mul(0x94D049BB133111EBu64);
            g4 ^ (g4 >> 31u64) == h4 ^ (h4 >> 31u64)
        }),
    ensures
        g0 == h0,
{
    let g1 = g0 ^ (g0 >> 30u64);
    let g2 = g1.wrapping_mul(0xBF58476D1CE4E5B9u64);
    let g3 = g2 ^ (g2 >> 27u64);
    let g4 = g3.wrapping_mul(0x94D049BB133111EBu64);
    let h1 = h0 ^ (h0 >> 30u64);
    let h2 = h1.wrapping_mul(0xBF58476D1CE4E5B9u64);
    let h3 = h2 ^ (h2 >> 27u64);
    let h4 = h3.wrapping_mul(0x94D049BB133111EBu64);
    assert(g4 == h4) by (bit_vector)
        requires
            g4 ^ (g4 >> 31u64) == h4 ^ (h4 >> 31u64),
    ;
    lemma_wrapping_mul_injective(g3, h3, 0x94D049BB133111EBu64, 0x319642b2d24d8ec3u64, 2077064247507883091);
    assert(g2 == h2) by (bit_vector)
        requires
            g2 ^ (g2 >> 27u64) == h2 ^ (h2 >> 27u64),
    ;
    lemma_wrapping_mul_injective(g1, h1, 0xBF58476D1CE4E5B9u64, 0x96de1b173f119089u64, 8125545580553827436);
    assert(g0 == h0) by (bit_vector)
        requires
            g0 ^ (g0 >> 30u64) == h0 ^ (h0 >> 30u64),
    ;
}

/// The lattice hash tells apart every two points of one lattice row and every
/// two points of one lattice column: it mixes both coordinates, each through
/// its own odd multiplier, into a one-to-one finaliser. So the noise varies
/// along both axes.
pub proof fn law_lattice_hash_separates_points(seed: u64, x1: u64, y1: u64, x2: u64, y2: u64)
    ensures
        x1 == x2 && y1 != y2 ==> lattice_hash(seed, x1, y1) != lattice_hash(seed, x2, y2),
        y1 == y2 && x1 != x2 ==> lattice_hash(seed, x1, y1) != lattice_hash(seed, x2, y2),
{
    if (x1 == x2 || y1 == y2) && lattice_hash(seed, x1, y1) == lattice_hash(seed, x2, y2) {
        let c1 = seed.wrapping_add(x1.wrapping_mul(0x9E3779B185EBCA87u64));
        let c2 = seed.wrapping_add(x2.wrapping_mul(0x9E3779B185EBCA87u64));
        let d1 = y1.wrapping_mul(0xC2B2AE3D27D4EB4Fu64);
        let d2 = y2.wrapping_mul(0xC2B2AE3D27D4EB4Fu64);
        lemma_finaliser_injective(c1.wrapping_add(d1), c2.wrapping_add(d2));
        if x1 == x2 {
            assert(d1 == d2);
            lemma_wrapping_mul_injective(y1, y2, 0xC2B2AE3D27D4EB4Fu64, 0xba79078168d4bafu64, 638699622168397319);
        } else {
            assert(c1 == c2);
            assert(x1.wrapping_mul(0x9E3779B185EBCA87u64) == x2.wrapping_mul(0x9E3779B185EBCA87u64));
            lemma_wrapping_mul_injective(x1, x2, 0x9E3779B185EBCA87u64, 0x887493432badb37u64, 379806830464837242);
        }
    }
}

/// The seed of noise octave `k`: octave 0 uses `seed`, and each further octave
/// advances it by one step of the 64-bit linear congruential generator.
pub open spec fn octave_seed(seed: u64, k: nat) -> u64
    decreases k,
{
    if k == 0 {
        seed
    } else {
        octave_seed(seed, (k - 1) as nat).wrapping_mul(6364136223846793005u64).wrapping_add(
            1442695040888963407u64,
        )
    }
}

/// The lattice size of noise octave `k`: the base lattice doubled `k` times
/// (an `i32` shift).
pub open spec fn octave_cells(base_cells: i32, k: nat) -> i32 {
    base_cells << (k as u32)
}

/// The `(seed, lattice size)` of each octave that fractal noise over a
/// `size`-texel tile sums, among the first `n` octaves: octaves are taken in
/// order and the sequence stops at the first one whose lattice is finer than
/// the tile.
pub open spec fn octave_schedule(seed: u64, size: u32, base_cells: i32, n: nat) -> Seq<(u64, i32)>
    decreases n,
{
    if n == 0 {
        Seq::empty()
    } else {
        let prev = octave_schedule(seed, size, base_cells, (n - 1) as nat);
        if prev.len() == n - 1 && octave_cells(base_cells, (n - 1) as nat) <= size as i32 {
            prev.push((octave_seed(seed, (n - 1) as nat), octave_cells(base_cells, (n - 1) as nat)))
        } else {
            prev
        }
    }
}

proof fn lemma_schedule_stops(seed: u64, size: u32, base_cells: i32, m: nat, n: nat)
    requires
        m <= n,
        octave_schedule(seed, size, base_cells, m).len() < m,
    ensures
        octave_schedule(seed, size, base_cells, n) == octave_schedule(seed, size, base_cells, m),
    decreases n - m,
{
    if m < n {
        lemma_schedule_stops(seed, size, base_cells, m, (n - 1) as nat);
    }
}

/// Octave `k` of a schedule is octave `k` of the noise: its seed and lattice.
proof fn lemma_schedule_entries(seed: u64, size: u32, base_cells: i32, n: nat)
    ensures
        octave_schedule(seed, size, base_cells, n).len() <= n,
        forall|k: int|
            0 <= k < octave_schedule(seed, size, base_cells, n).len() ==> #[trigger] octave_schedule(
                seed,
                size,
                base_cells,
                n,
            )[k] == (octave_seed(seed, k as nat), octave_cells(base_cells, k as nat)),
    decreases n,
{
    if n > 0 {
        lemma_schedule_entries(seed, size, base_cells, (n - 1) as nat);
    }
}

/// The octaves of fractal noise over a tile each have their own seed: the
/// first octave uses the tile seed and each further octave's seed is one
/// step of the 64-bit linear congruential generator
/// `s * 6364136223846793005 + 1442695040888963407` (wrapping) from the seed of
/// the octave before it; octave `k`'s lattice is the base lattice shifted left
/// `k` times and never finer than the tile.
pub proof fn law_octave_seeds_follow_the_lcg(seed: u64, size: u32, base_cells: i32, n: nat)
    ensures
        ({
            let plan = octave_schedule(seed, size, base_cells, n);
            &&& plan.len() > 0 ==> plan[0].0 == seed
            &&& forall|k: int|
                0 <= k < plan.len() - 1 ==> #[trigger] plan[k + 1].0 == plan[k].0.wrapping_mul(
                    6364136223846793005u64,
                ).wrapping_add(1442695040888963407u64)
            &&& forall|k: int|
                0 <= k < plan.len() ==> #[trigger] plan[k].1 == base_cells << (k as u32)
                    && plan[k].1 <= size as i32
        }),
{
    lemma_schedule_entries(seed, size, base_cells, n);
    lemma_schedule_cells_fit(seed, size, base_cells, n);
    let plan = octave_schedule(seed, size, base_cells, n);
    assert forall|k: int| 0 <= k < plan.len() - 1 implies #[trigger] plan[k + 1].0
        == plan[k].0.wrapping_mul(6364136223846793005u64).wrapping_add(1442695040888963407u64) by {
        assert(plan[k + 1] == (octave_seed(seed, (k + 1) as nat), octave_cells(base_cells, (k + 1) as nat)));
        assert(plan[k] == (octave_seed(seed, k as nat), octave_cells(base_cells, k as nat)));
    }
}

/// Every octave of a schedule has a lattice no finer than the tile.
proof fn lemma_schedule_cells_fit(seed: u64, size: u32, base_cells: i32, n: nat)
    ensures
        forall|k: int|
            0 <= k < octave_schedule(seed, size, base_cells, n).len() ==> (#[trigger] octave_schedule(
                seed,
                size,
                base_cells,
                n,
            )[k]).1 <= size as i32,
    decreases n,
{
    if n > 0 {
        lemma_schedule_cells_fit(seed, size, base_cells, (n - 1) as nat);
        let prev = octave_schedule(seed, size, base_cells, (n - 1) as nat);
        let cur = octave_schedule(seed, size, base_cells, n);
        assert forall|k: int| 0 <= k < cur.len() implies (#[trigger] cur[k]).1 <= size as i32 by {
            if k < prev.len() {
                assert(cur[k] == prev[k]);
            }
        }
    }
}

/// The octaves fractal noise sums for a `size`-texel tile: up to `octaves`
/// octaves starting at a `base_cells` lattice, each with its own seed. The
/// lattice is doubled by an `i32` shift, so more than 32 octaves are only
/// possible when the lattice outgrows the tile within the first 32.
pub fn octave_plan(seed: u64, size: u32, base_cells: i32, octaves: u32) -> (plan: Vec<(u64, i32)>)
    requires
        octaves <= 32 || octave_schedule(seed, size, base_cells, 32).len() < 32,
    ensures
        plan@ == octave_schedule(seed, size, base_cells, octaves as nat),
        plan@.len() <= octaves,
        plan@.len() > 0 ==> plan@[0].0 == seed,
        forall|k: int|
            0 <= k < plan@.len() - 1 ==> #[trigger] plan@[k + 1].0 == plan@[k].0.wrapping_mul(
                6364136223846793005u64,
            ).wrapping_add(1442695040888963407u64),
        forall|k: int|
            0 <= k < plan@.len() ==> #[trigger] plan@[k].1 == base_cells << (k as u32)
                && plan@[k].1 <= size as i32,
{
    let mut plan: Vec<(u64, i32)> = Vec::new();
    let mut s = seed;
    let mut k: u32 = 0;
    while k < octaves
        invariant
            k <= octaves,
            k <= 32,
            octaves <= 32 || octave_schedule(seed, size, base_cells, 32).len() < 32,
            plan@ == octave_schedule(seed, size, base_cells, k as nat),
            plan@.len() == k,
            s == octave_seed(seed, k as nat),
        decreases octaves - k,
    {
        let cells: i32 = base_cells << k;
        assert(cells == octave_cells(base_cells, k as nat));
        if cells > size as i32 {
            proof {
                lemma_schedule_stops(seed, size, base_cells, (k + 1) as nat, octaves as nat);
                lemma_schedule_entries(seed, size, base_cells, octaves as nat);
                law_octave_seeds_follow_the_lcg(seed, size, base_cells, octaves as nat);
            }
            return plan;
        }
        plan.push((s, cells));
        s = s.wrapping_mul(6364136223846793005u64).wrapping_add(1442695040888963407u64);
        k = k + 1;
    }
    proof {
        lemma_schedule_entries(seed, size, base_cells, octaves as nat);
        law_octave_seeds_follow_the_lcg(seed, size, base_cells, octaves as nat);
    }
    plan
}

/// Bakes the `size`×`size` cloud layer tile: white-to-grey clouds whose texel
/// at `(x, y)` takes its grey level and coverage alpha from `cover(x, y)`.
pub fn generate_cloud_tile<F: Fn(u32, u32) -> (u8, u8)>(size: u32, cover: F) -> (out: Vec<u8>)
    requires
        4 * size * size <= usize::MAX,
        forall|x: u32, y: u32| x < size && y < size ==> call_requires(cover, (x, y)),
    ensures
        out@.len() == 4 * size * size,
        forall|p: int|
            0 <= p < size * size ==> {
                let (r, g, b, a) = #[trigger] px(out@, p);
                &&& r == g && g == b
                &&& call_ensures(cover, (px_x(p, size as int), px_y(p, size as int)), (r, a))
            },
{
    bake_rgba(
        size,
        size,
        (|x: u32, y: u32| -> (t: (u8, u8, u8, u8))
            requires
                call_requires(cover, (x, y)),
            ensures
                t.0 == t.1 && t.1 == t.2,
                call_ensures(cover, (x, y), (t.0, t.3)),
        {
            let (lum, a) = cover(x, y);
            (lum, lum, lum, a)
        }),
    )
}

/// Bakes the `size`×`size` opaque foliage tile of the world atlas: the texel
/// at `(x, y)` takes its leaf color from `leaf(x, y)`; every texel is opaque.
pub fn generate_foliage_tile<F: Fn(u32, u32) -> (u8, u8, u8)>(size: u32, leaf: F) -> (out: Vec<u8>)
    requires
        4 * size * size <= usize::MAX,
        forall|x: u32, y: u32| x < size && y < size ==> call_requires(leaf, (x, y)),
    ensures
        out@.len() == 4 * size * size,
        forall|p: int|
            0 <= p < size * size ==> {
                let (r, g, b, a) = #[trigger] px(out@, p);
                &&& a == 255
                &&& call_ensures(leaf, (px_x(p, size as int), px_y(p, size as int)), (r, g, b))
            },
{
    bake_rgba(
        size,
        size,
        (|x: u32, y: u32| -> (t: (u8, u8, u8, u8))
            requires
                call_requires(leaf, (x, y)),
            ensures
                t.3 == 255,
                call_ensures(leaf, (x, y), (t.0, t.1, t.2)),
        {
            let (r, g, b) = leaf(x, y);
            (r, g, b, 255u8)
        }),
    )
}

/// Bakes the `size`×`size` opaque rock tile of the world atlas: the texel at
/// `(x, y)` takes its stone color from `stone(x, y)`; every texel is opaque.
pub fn generate_rock_tile<F: Fn(u32, u32) -> (u8, u8, u8)>(size: u32, stone: F) -> (out: Vec<u8>)
    requires
        4 * size * size <= usize::MAX,
        forall|x: u32, y: u32| x < size && y < size ==> call_requires(stone, (x, y)),
    ensures
        out@.len() == 4 * size * size,
        forall|p: int|
            0 <= p < size * size ==> {
                let (r, g, b, a) = #[trigger] px(out@, p);
                &&& a == 255
                &&& call_ensures(stone, (px_x(p, size as int), px_y(p, size as int)), (r, g, b))
            },
{
    bake_rgba(
        size,
        size,
        (|x: u32, y: u32| -> (t: (u8, u8, u8, u8))
            requires
                call_requires(stone, (x, y)),
            ensures
                t.3 == 255,
                call_ensures(stone, (x, y), (t.0, t.1, t.2)),
        {
            let (r, g, b) = stone(x, y);
            (r, g, b, 255u8)
        }),
    )
}

} // verus!
