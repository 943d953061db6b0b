//! Particle sprites and the particle random source.
//!
//! The rain, dust and mist systems draw from a 64-bit xorshift generator; the
//! headless snapshot path seeds it from the scenario seed, so identical seeds
//! replay identical particle fields. The sprite bakers lay out the soft
//! gaussian streak sprite and the billowy dust-cloud sprite.
use vstd::prelude::*;

use crate::render::bake::{bake_rgba, px, px_x, px_y};

verus! {

/// One step of the 64-bit xorshift generator (shifts 13, 7, 17).
pub open spec fn xorshift(x: u64) -> u64 {
    let a = x ^ (x << 13u64);
    let b = a ^ (a >> 7u64);
    b ^ (b << 17u64)
}

/// The state after `n` xorshift steps from `x`.
pub open spec fn xorshift_iter(x: u64, n: nat) -> u64
    decreases n,
{
    if n == 0 {
        x
    } else {
        xorshift(xorshift_iter(x, (n - 1) as nat))
    }
}

/// A xorshift generator never reaches the all-zero state from a non-zero one,
/// so a seeded generator keeps producing fresh values forever.
pub proof fn law_xorshift_never_zero(x: u64)
    requires
        x != 0,
    ensures
        xorshift(x) != 0,
{
    assert(x != 0 ==> (x ^ (x << 13u64)) != 0) by (bit_vector);
    let a = x ^ (x << 13u64);
    assert(a != 0 ==> (a ^ (a >> 7u64)) != 0) by (bit_vector);
    let b = a ^ (a >> 7u64);
    assert(b != 0 ==> (b ^ (b << 17u64)) != 0) by (bit_vector);
}

/// Reads the wall clock as nanoseconds since the Unix epoch, truncated to the
/// low 64 bits (`SystemTime::now`, `duration_since(UNIX_EPOCH)`,
/// `Duration::as_nanos`). `None` when the clock reads earlier than the epoch.
/// Nothing is claimed of the value: it depends on the time.
#[verifier::external_body]
fn clock_nanos() -> Option<u64> {
    match std::time::SystemTime::now().duration_since(std::time::UNIX_EPOCH) {
        Ok(d) => Some(d.as_nanos() as u64),
        Err(_) => None,
    }
}

/// 64-bit xorshift random source for the particle systems.
pub struct Rng {
    state: u64,
}

impl Rng {
    #[verifier::type_invariant]
    spec fn inv(self) -> bool {
        self.state != 0
    }

    /// The generator's current state (also its last output).
    pub closed spec fn state(self) -> u64 {
        self.state
    }

    /// A generator seeded from the wall clock, so every run gets a fresh field:
    /// the state is the clock's nanoseconds with the low bit forced on. `None`
    /// when the clock reads earlier than the Unix epoch.
    pub fn new() -> (r: Option<Rng>)
        ensures
            r matches Some(g) ==> g.state() & 1 == 1,
    {
        Rng::from_clock(clock_nanos())
    }

    /// The generator a clock reading seeds: `from_seed(n)` for a reading of
    /// `n` nanoseconds since the epoch, `None` for a clock before the epoch.
    pub fn from_clock(nanos: Option<u64>) -> (r: Option<Rng>)
        ensures
            match nanos {
                Some(n) => r matches Some(g) && g.state() == n | 1 && g.state() & 1 == 1,
                None => r is None,
            },
    {
        match nanos {
            Some(n) => Some(Rng::from_seed(n)),
            None => None,
        }
    }

    /// A deterministic generator for `seed` (the low bit is forced on so the
    /// state is never zero).
    pub fn from_seed(seed: u64) -> (r: Rng)
        ensures
            r.state() == seed | 1,
            r.state() & 1 == 1,
    {
        let s = seed | 1;
        assert(s != 0 && s & 1 == 1) by (bit_vector)
            requires
                s == seed | 1,
        ;
        Rng { state: s }
    }

    /// Advances the generator one xorshift step and returns the new state.
    pub fn next(&mut self) -> (out: u64)
        ensures
            out == xorshift(old(self).state()),
            final(self).state() == out,
            out != 0,
    {
        proof {
            use_type_invariant(&*self);
            law_xorshift_never_zero(self.state);
        }
        let mut x = self.state;
        x = x ^ (x << 13u64);
        x = x ^ (x >> 7u64);
        x = x ^ (x << 17u64);
        self.state = x;
        x
    }
}

/// Number of raw draws that shape the eight blob kernels of a cloud sprite:
/// one for the central blob's radius, three (offset x, offset y, radius) for
/// each of the other seven.
pub const CLOUD_SPRITE_DRAWS: usize = 22;

/// The raw xorshift draws (seeded with `seed | 1`) that place and size the blob
/// kernels of the cloud sprite for `seed`, in draw order.
pub fn cloud_sprite_draws(seed: u64) -> (draws: Vec<u64>)
    ensures
        draws@.len() == CLOUD_SPRITE_DRAWS,
        forall|k: int|
            0 <= k < CLOUD_SPRITE_DRAWS ==> #[trigger] draws@[k] == xorshift_iter(
                seed | 1,
                (k + 1) as nat,
            ),
{
    let mut rng = Rng::from_seed(seed);
    let mut draws: Vec<u64> = Vec::with_capacity(CLOUD_SPRITE_DRAWS);
    let mut k: usize = 0;
    while k < CLOUD_SPRITE_DRAWS
        invariant
            k <= CLOUD_SPRITE_DRAWS,
            draws@.len() == k,
            rng.state() == xorshift_iter(seed | 1, k as nat),
            forall|j: int|
                0 <= j < k ==> #[trigger] draws@[j] == xorshift_iter(seed | 1, (j + 1) as nat),
        decreases CLOUD_SPRITE_DRAWS - k,
    {
        let d = rng.next();
        draws.push(d);
        k = k + 1;
    }
    draws
}

/// Bakes the `size`×`size` soft particle sprite: a white sprite whose alpha is
/// the radial falloff `alpha(x, y)`.
pub fn generate_soft_sprite<F: Fn(u32, u32) -> u8>(size: u32, alpha: F) -> (out: Vec<u8>)
    requires
        4 * size * size <= usize::MAX,
        forall|x: u32, y: u32| x < size && y < size ==> call_requires(alpha, (x, y)),
    ensures
        out@.len() == 4 * size * size,
        forall|p: int|
            0 <= p < size * size ==> {
                let (r, g, b, a) = #[trigger] px(out@, p);
                &&& r == 255 && g == 255 && b == 255
                &&& call_ensures(alpha, (px_x(p, size as int), px_y(p, size as int)), a)
            },
{
    bake_rgba(
        size,
        size,
        (|x: u32, y: u32| -> (t: (u8, u8, u8, u8))
            requires
                call_requires(alpha, (x, y)),
            ensures
                t.0 == 255 && t.1 == 255 && t.2 == 255,
                call_ensures(alpha, (x, y), t.3),
        {
            let a = alpha(x, y);
            (255u8, 255u8, 255u8, a)
        }),
    )
}

/// Bakes the `size`×`size` dust-cloud sprite: a grey sprite whose texel at
/// `(x, y)` takes its grey level and alpha from `shade(x, y)`.
pub fn generate_cloud_sprite<F: Fn(u32, u32) -> (u8, u8)>(size: u32, shade: F) -> (out: Vec<u8>)
    requires
        4 * size * size <= usize::MAX,
        forall|x: u32, y: u32| x < size && y < size ==> call_requires(shade, (x, y)),
    ensures
        out@.len() == 4 * size * size,
        forall|p: int|
            0 <= p < size * size ==> {
                let (r, g, b, a) = #[trigger] px(out@, p);
                &&& r == g && g == b
                &&& call_ensures(shade, (px_x(p, size as int), px_y(p, size as int)), (r, a))
            },
{
    bake_rgba(
        size,
        size,
        (|x: u32, y: u32| -> (t: (u8, u8, u8, u8))
            requires
                call_requires(shade, (x, y)),
            ensures
                t.0 == t.1 && t.1 == t.2,
                call_ensures(shade, (x, y), (t.0, t.3)),
        {
            let (c, a) = shade(x, y);
            (c, c, c, a)
        }),
    )
}

} // verus!
