//! Bookkeeping for the ray-traced backend: the fixed per-slot vertex/index pool
//! layout, the chunk-to-slot mapping of the sliding world window, the repack
//! plan when the window moves, dirty-slot tracking and the per-frame instance
//! list. Everything here is plain integer logic; the GPU work consumes it.
use vstd::prelude::*;

verus! {

/// Vertex pool capacity in `vec4` units (one vertex takes three).
pub const VERT_CAP_VEC4: u64 = 14_000_000;

/// Index pool capacity.
pub const INDEX_CAP: u64 = 7_000_000;

/// Maximum number of mesh slots in the pool.
pub const SLOT_CAP: u64 = 256;

/// Acceleration-structure storage and slices must be 256-byte aligned.
pub const AS_ALIGN_BYTES: u64 = 256;

/// Instance mask of the player and traffic cars: bit 0 clear, so the shadow
/// probes (cull mask `0x01`) never test the car hulls.
pub const STATIC_INSTANCE_MASK: u8 = 0xfe;

/// Instance mask of world chunks: bit 0 set, so terrain, walls and trees
/// occlude the shadow probes.
pub const CHUNK_INSTANCE_MASK: u8 = 0x01;

/// Chunk slots in the window: one behind, the current chunk and six ahead.
pub const CHUNK_SLOT_COUNT: usize = 8;

/// Side of the supersampled ray-traced output relative to the offscreen target.
pub const SUPERSAMPLE: u32 = 2;

/// Per-chunk vertex capacity of a chunk slot.
pub const CHUNK_VERT_CAP: u32 = 430_000;

/// Per-chunk index capacity of a chunk slot.
pub const CHUNK_INDEX_CAP: u32 = 630_000;

/// One mesh in the ray-tracing vertex pool, as the closest-hit shader reads it.
/// `vertex_base` is in `vec4` units (vertex `i` starts at `vertex_base + 3 * i`).
#[derive(Clone, Copy, Debug, PartialEq, Eq)]
pub struct RtSlot {
    pub vertex_base: u32,
    pub vertex_count: u32,
    pub index_base: u32,
    pub index_count: u32,
}

/// Fixed pool region reserved for one mesh slot.
#[derive(Clone, Copy, Debug, PartialEq, Eq)]
pub struct SlotLayout {
    pub vertex_base: u32,
    pub vertex_cap: u32,
    pub index_base: u32,
    pub index_cap: u32,
}

/// Smallest multiple of `align` that is at least `x`, as a mathematical integer.
pub open spec fn spec_align_up(x: int, align: int) -> int {
    ((x + align - 1) / align) * align
}

/// Rounds `x` up to the next multiple of `align`.
pub fn align_up(x: u64, align: u64) -> (r: u64)
    requires
        align > 0,
        spec_align_up(x as int, align as int) <= u64::MAX,
    ensures
        r == spec_align_up(x as int, align as int),
{
    let q = x / align;
    let rem = x % align;
    proof {
        lemma_div_ceil(x as int, align as int);
    }
    if rem == 0 {
        q * align
    } else {
        assert(align > 1 && x > 0) by (nonlinear_arith)
            requires
                align > 0,
                rem == x % align,
                rem != 0,
        ;
        assert(q < x) by (nonlinear_arith)
            requires
                align > 1,
                x > 0,
                q == x / align,
        ;
        let q1 = q + 1;
        assert(q1 * align == spec_align_up(x as int, align as int));
        q1 * align
    }
}

proof fn lemma_div_ceil(x: int, a: int)
    requires
        x >= 0,
        a > 0,
    ensures
        x % a == 0 ==> (x / a) * a == spec_align_up(x, a),
        x % a != 0 ==> (x / a + 1) * a == spec_align_up(x, a),
{
    let q = x / a;
    let r = x % a;
    assert(x == a * q + r) by (nonlinear_arith)
        requires
            a > 0,
            q == x / a,
            r == x % a,
    ;
    assert(0 <= r < a);
    if r == 0 {
        assert((x + a - 1) / a == q) by (nonlinear_arith)
            requires
                a > 0,
                x == a * q,
                q >= 0,
        {
            assert(x + a - 1 == a * q + (a - 1));
        }
        assert(q * a == a * q) by (nonlinear_arith);
    } else {
        assert((x + a - 1) / a == q + 1) by (nonlinear_arith)
            requires
                a > 0,
                x == a * q + r,
                0 < r < a,
                q >= 0,
        {
            assert(x + a - 1 == a * (q + 1) + (r - 1));
        }
    }
}

/// `align_up` lands on a multiple of the alignment, never below `x` and less
/// than one alignment step above it.
pub proof fn law_align_up_is_tightest_multiple(x: u64, align: u64)
    requires
        align > 0,
    ensures
        spec_align_up(x as int, align as int) % (align as int) == 0,
        x <= spec_align_up(x as int, align as int) < x + align,
{
    let a = align as int;
    let q = (x + a - 1) / a;
    let r = (x + a - 1) % a;
    assert(x + a - 1 == a * q + r && 0 <= r < a) by (nonlinear_arith)
        requires
            a > 0,
            q == (x + a - 1) / a,
            r == (x + a - 1) % a,
            x >= 0,
    ;
    assert(spec_align_up(x as int, a) == a * q) by (nonlinear_arith)
        requires
            q == (x + a - 1) / a,
    ;
    assert((a * q) % a == 0) by (nonlinear_arith)
        requires
            a > 0,
    ;
}

/// Blit extent of a supersampled image: the target size times `scale`, depth 1.
pub fn region_extent(extent: [u32; 2], scale: u32) -> (r: [u32; 3])
    requires
        extent[0] * scale <= u32::MAX,
        extent[1] * scale <= u32::MAX,
    ensures
        r[0] == extent[0] * scale,
        r[1] == extent[1] * scale,
        r[2] == 1,
{
    [extent[0] * scale, extent[1] * scale, 1]
}

/// The fixed pool slot of a world chunk: the chunk slots follow the
/// `static_slots` car slots, and chunk `index` always lands in slot
/// `static_slots + (index mod CHUNK_SLOT_COUNT)` (Euclidean remainder).
pub open spec fn spec_chunk_slot(static_slots: usize, index: i32) -> int {
    static_slots + (index as int) % (CHUNK_SLOT_COUNT as int)
}

/// The fixed pool slot of world chunk `index`.
pub fn chunk_slot(static_slots: usize, index: i32) -> (slot: usize)
    requires
        static_slots + CHUNK_SLOT_COUNT <= usize::MAX,
    ensures
        slot == spec_chunk_slot(static_slots, index),
        static_slots <= slot < static_slots + CHUNK_SLOT_COUNT,
{
    let shifted: u64 = (index as i64 + 2147483648i64) as u64;
    let r: usize = (shifted % 8) as usize;
    assert(r as int == (index as int) % 8);
    static_slots + r
}

/// Chunk slots repeat with the slot count: chunks `CHUNK_SLOT_COUNT` apart
/// share a slot, and any run of at most `CHUNK_SLOT_COUNT` consecutive chunks
/// occupies pairwise distinct slots. So a one-chunk slide hands the leaving
/// chunk's slot to the entering chunk and leaves every other slot untouched.
pub proof fn law_chunk_slots_cycle(static_slots: usize, a: i32, b: i32)
    ensures
        b == a + CHUNK_SLOT_COUNT ==> spec_chunk_slot(static_slots, a) == spec_chunk_slot(
            static_slots,
            b,
        ),
        a < b < a + CHUNK_SLOT_COUNT ==> spec_chunk_slot(static_slots, a) != spec_chunk_slot(
            static_slots,
            b,
        ),
{
}

/// Positions `0..n` of `flags` that are set, in ascending order.
pub open spec fn set_positions(flags: Seq<bool>, n: nat) -> Seq<usize>
    decreases n,
{
    if n == 0 {
        Seq::empty()
    } else if flags[n - 1] {
        set_positions(flags, (n - 1) as nat).push((n - 1) as usize)
    } else {
        set_positions(flags, (n - 1) as nat)
    }
}

/// Slots whose pool region and acceleration structure still need rewriting on
/// an image's next frame: the positions of its set dirty flags, ascending.
pub fn dirty_slots(flags: &[bool]) -> (slots: Vec<usize>)
    ensures
        slots@ == set_positions(flags@, flags@.len()),
{
    let mut slots: Vec<usize> = Vec::new();
    let mut s: usize = 0;
    while s < flags.len()
        invariant
            s <= flags@.len(),
            slots@ == set_positions(flags@, s as nat),
        decreases flags@.len() - s,
    {
        if flags[s] {
            slots.push(s);
        }
        s = s + 1;
    }
    slots
}

/// Instances in the top-level structure: the player, up to eight traffic cars
/// and the eight-chunk window, with slack.
pub const INSTANCE_CAP: usize = 1 + 8 + 8 + 8;

/// Total vertex count (not yet in `vec4` units) of the first `k` static meshes.
pub open spec fn vert_prefix(sizes: Seq<(u32, u32)>, k: nat) -> int
    decreases k,
{
    if k == 0 {
        0
    } else {
        vert_prefix(sizes, (k - 1) as nat) + sizes[k - 1].0
    }
}

/// Total index count of the first `k` static meshes.
pub open spec fn index_prefix(sizes: Seq<(u32, u32)>, k: nat) -> int
    decreases k,
{
    if k == 0 {
        0
    } else {
        index_prefix(sizes, (k - 1) as nat) + sizes[k - 1].1
    }
}

proof fn lemma_prefix_monotone(sizes: Seq<(u32, u32)>, j: nat, k: nat)
    requires
        j <= k <= sizes.len(),
    ensures
        vert_prefix(sizes, j) <= vert_prefix(sizes, k),
        index_prefix(sizes, j) <= index_prefix(sizes, k),
    decreases k - j,
{
    if j < k {
        lemma_prefix_monotone(sizes, j, (k - 1) as nat);
    }
}

/// The pool region of slot `k` when the static meshes have the
/// `(vertex count, index count)` sizes `sizes`: the static meshes are packed
/// back to back first (three `vec4` per vertex), then the
/// `CHUNK_SLOT_COUNT` chunk slots, each sized for the worst-case chunk.
pub open spec fn spec_slot_layout(sizes: Seq<(u32, u32)>, k: int) -> SlotLayout {
    let s = sizes.len();
    if k < s {
        SlotLayout {
            vertex_base: (3 * vert_prefix(sizes, k as nat)) as u32,
            vertex_cap: sizes[k].0,
            index_base: index_prefix(sizes, k as nat) as u32,
            index_cap: sizes[k].1,
        }
    } else {
        SlotLayout {
            vertex_base: (3 * vert_prefix(sizes, s) + 3 * (k - s) * CHUNK_VERT_CAP) as u32,
            vertex_cap: CHUNK_VERT_CAP,
            index_base: (index_prefix(sizes, s) + (k - s) * CHUNK_INDEX_CAP) as u32,
            index_cap: CHUNK_INDEX_CAP,
        }
    }
}

/// The shader-visible slot record of slot `k`: a static mesh fills its whole
/// region; a chunk slot starts empty.
pub open spec fn spec_initial_rt_slot(sizes: Seq<(u32, u32)>, k: int) -> RtSlot {
    let l = spec_slot_layout(sizes, k);
    RtSlot {
        vertex_base: l.vertex_base,
        vertex_count: if k < sizes.len() { l.vertex_cap } else { 0 },
        index_base: l.index_base,
        index_count: if k < sizes.len() { l.index_cap } else { 0 },
    }
}

/// The whole layout fits the pools: the `vec4` vertex pool, the index pool and
/// the slot table.
pub open spec fn pool_fits(sizes: Seq<(u32, u32)>) -> bool {
    let s = sizes.len();
    &&& 3 * vert_prefix(sizes, s) + 3 * CHUNK_SLOT_COUNT * CHUNK_VERT_CAP <= VERT_CAP_VEC4 * 4
    &&& index_prefix(sizes, s) + CHUNK_SLOT_COUNT * CHUNK_INDEX_CAP <= INDEX_CAP
    &&& s + CHUNK_SLOT_COUNT <= SLOT_CAP
}

/// Lays out the fixed pool regions of the static car meshes (sizes given as
/// `(vertex count, index count)`) followed by the chunk slots, and the initial
/// slot records the shader reads.
pub fn pool_layout(static_sizes: &[(u32, u32)]) -> (plan: (Vec<SlotLayout>, Vec<RtSlot>))
    requires
        pool_fits(static_sizes@),
    ensures
        plan.0@.len() == static_sizes@.len() + CHUNK_SLOT_COUNT,
        plan.1@.len() == static_sizes@.len() + CHUNK_SLOT_COUNT,
        forall|k: int|
            0 <= k < plan.0@.len() ==> #[trigger] plan.0@[k] == spec_slot_layout(static_sizes@, k),
        forall|k: int|
            0 <= k < plan.1@.len() ==> #[trigger] plan.1@[k] == spec_initial_rt_slot(
                static_sizes@,
                k,
            ),
{
    let ghost sizes = static_sizes@;
    let n = static_sizes.len();
    let mut layouts: Vec<SlotLayout> = Vec::with_capacity(n + CHUNK_SLOT_COUNT);
    let mut slots: Vec<RtSlot> = Vec::with_capacity(n + CHUNK_SLOT_COUNT);
    let mut float_base: u32 = 0;
    let mut index_base: u32 = 0;
    let mut k: usize = 0;
    while k < n
        invariant
            sizes == static_sizes@,
            n == sizes.len(),
            pool_fits(sizes),
            k <= n,
            layouts@.len() == k,
            slots@.len() == k,
            float_base == 3 * vert_prefix(sizes, k as nat),
            index_base == index_prefix(sizes, k as nat),
            forall|j: int| 0 <= j < k ==> #[trigger] layouts@[j] == spec_slot_layout(sizes, j),
            forall|j: int| 0 <= j < k ==> #[trigger] slots@[j] == spec_initial_rt_slot(sizes, j),
        decreases n - k,
    {
        proof {
            lemma_prefix_monotone(sizes, (k + 1) as nat, n as nat);
        }
        let (vcount, icount) = static_sizes[k];
        let layout = SlotLayout {
            vertex_base: float_base,
            vertex_cap: vcount,
            index_base: index_base,
            index_cap: icount,
        };
        float_base = float_base + vcount * 3;
        index_base = index_base + icount;
        layouts.push(layout);
        slots.push(
            RtSlot {
                vertex_base: layout.vertex_base,
                vertex_count: layout.vertex_cap,
                index_base: layout.index_base,
                index_count: layout.index_cap,
            },
        );
        k = k + 1;
    }
    let mut m: usize = 0;
    while m < CHUNK_SLOT_COUNT
        invariant
            sizes == static_sizes@,
            n == sizes.len(),
            pool_fits(sizes),
            m <= CHUNK_SLOT_COUNT,
            layouts@.len() == n + m,
            slots@.len() == n + m,
            float_base == 3 * vert_prefix(sizes, n as nat) + 3 * m * CHUNK_VERT_CAP,
            index_base == index_prefix(sizes, n as nat) + m * CHUNK_INDEX_CAP,
            forall|j: int|
                0 <= j < n + m ==> #[trigger] layouts@[j] == spec_slot_layout(sizes, j),
            forall|j: int|
                0 <= j < n + m ==> #[trigger] slots@[j] == spec_initial_rt_slot(sizes, j),
        decreases CHUNK_SLOT_COUNT - m,
    {
        let layout = SlotLayout {
            vertex_base: float_base,
            vertex_cap: CHUNK_VERT_CAP,
            index_base: index_base,
            index_cap: CHUNK_INDEX_CAP,
        };
        float_base = float_base + CHUNK_VERT_CAP * 3;
        index_base = index_base + CHUNK_INDEX_CAP;
        layouts.push(layout);
        slots.push(
            RtSlot {
                vertex_base: layout.vertex_base,
                vertex_count: 0,
                index_base: layout.index_base,
                index_count: 0,
            },
        );
        m = m + 1;
    }
    (layouts, slots)
}

/// The pool regions tile the pools in slot order without gaps or overlaps: each
/// region starts where the previous one ends, and the last one ends inside the
/// pool capacities.
pub proof fn law_pool_regions_tile(sizes: Seq<(u32, u32)>, k: int)
    requires
        pool_fits(sizes),
        0 <= k < sizes.len() + CHUNK_SLOT_COUNT,
    ensures
        spec_slot_layout(sizes, k).vertex_base + 3 * spec_slot_layout(sizes, k).vertex_cap
            == (if k + 1 < sizes.len() + CHUNK_SLOT_COUNT {
            spec_slot_layout(sizes, k + 1).vertex_base as int
        } else {
            3 * vert_prefix(sizes, sizes.len()) + 3 * CHUNK_SLOT_COUNT * CHUNK_VERT_CAP
        }),
        spec_slot_layout(sizes, k).index_base + spec_slot_layout(sizes, k).index_cap
            == (if k + 1 < sizes.len() + CHUNK_SLOT_COUNT {
            spec_slot_layout(sizes, k + 1).index_base as int
        } else {
            index_prefix(sizes, sizes.len()) + CHUNK_SLOT_COUNT * CHUNK_INDEX_CAP
        }),
{
    let s = sizes.len();
    let total_v = 3 * vert_prefix(sizes, s);
    let total_i = index_prefix(sizes, s);
    lemma_prefix_monotone(sizes, 0, s);
    if k < s {
        lemma_prefix_monotone(sizes, 0, k as nat);
        lemma_prefix_monotone(sizes, (k + 1) as nat, s);
        lemma_prefix_monotone(sizes, k as nat, s);
        assert(vert_prefix(sizes, (k + 1) as nat) == vert_prefix(sizes, k as nat) + sizes[k].0);
        assert(index_prefix(sizes, (k + 1) as nat) == index_prefix(sizes, k as nat) + sizes[k].1);
        assert(3 * vert_prefix(sizes, (k + 1) as nat) <= total_v);
        assert(spec_slot_layout(sizes, k).vertex_base == 3 * vert_prefix(sizes, k as nat));
        assert(spec_slot_layout(sizes, k).index_base == index_prefix(sizes, k as nat));
        if k + 1 < s {
            assert(spec_slot_layout(sizes, k + 1).vertex_base == 3 * vert_prefix(
                sizes,
                (k + 1) as nat,
            ));
            assert(spec_slot_layout(sizes, k + 1).index_base == index_prefix(sizes, (k + 1) as nat));
        } else {
            assert(spec_slot_layout(sizes, k + 1).vertex_base == total_v);
            assert(spec_slot_layout(sizes, k + 1).index_base == total_i);
        }
    } else {
        let m = k - s;
        assert(0 <= m < 8);
        assert(total_v + 3 * m * CHUNK_VERT_CAP <= VERT_CAP_VEC4 * 4);
        assert(spec_slot_layout(sizes, k).vertex_base == total_v + 3 * m * CHUNK_VERT_CAP);
        assert(spec_slot_layout(sizes, k).index_base == total_i + m * CHUNK_INDEX_CAP);
        if k + 1 < s + CHUNK_SLOT_COUNT {
            assert(spec_slot_layout(sizes, k + 1).vertex_base == total_v + 3 * (m + 1)
                * CHUNK_VERT_CAP);
            assert(spec_slot_layout(sizes, k + 1).index_base == total_i + (m + 1)
                * CHUNK_INDEX_CAP);
        }
    }
}

/// The chunk-slot owner table after placing `idxs[0..n]` in turn, starting
/// from `owner`, together with the window positions that had to be repacked: a
/// chunk whose slot already holds it is left alone; otherwise it takes the slot
/// over and its position is recorded.
pub open spec fn repack_fold(owner: Seq<Option<i32>>, idxs: Seq<i32>, n: nat) -> (Seq<Option<i32>>, Seq<usize>)
    decreases n,
{
    if n == 0 {
        (owner, Seq::empty())
    } else {
        let (o, r) = repack_fold(owner, idxs, (n - 1) as nat);
        let idx = idxs[n - 1];
        let oi = (idx as int) % (CHUNK_SLOT_COUNT as int);
        if o[oi] == Some(idx) {
            (o, r)
        } else {
            (o.update(oi, Some(idx)), r.push((n - 1) as usize))
        }
    }
}

/// Assigns every chunk of the window `chunk_indices` to its fixed chunk slot,
/// updating the owner table, and returns the window positions whose chunk
/// entered a slot it did not already own (those need their mesh repacked).
pub fn plan_repack(owner: &mut Vec<Option<i32>>, chunk_indices: &[i32]) -> (repacked: Vec<usize>)
    requires
        old(owner)@.len() == CHUNK_SLOT_COUNT,
    ensures
        final(owner)@ == repack_fold(old(owner)@, chunk_indices@, chunk_indices@.len()).0,
        repacked@ == repack_fold(old(owner)@, chunk_indices@, chunk_indices@.len()).1,
        final(owner)@.len() == CHUNK_SLOT_COUNT,
{
    let ghost init = owner@;
    let mut repacked: Vec<usize> = Vec::new();
    let mut j: usize = 0;
    while j < chunk_indices.len()
        invariant
            j <= chunk_indices@.len(),
            init.len() == CHUNK_SLOT_COUNT,
            owner@.len() == CHUNK_SLOT_COUNT,
            owner@ == repack_fold(init, chunk_indices@, j as nat).0,
            repacked@ == repack_fold(init, chunk_indices@, j as nat).1,
        decreases chunk_indices@.len() - j,
    {
        proof {
            lemma_fold_len(init, chunk_indices@, j as nat);
        }
        let idx = chunk_indices[j];
        let oi = chunk_slot(0, idx);
        let owned = match owner[oi] {
            Some(o) => o == idx,
            None => false,
        };
        if !owned {
            owner.set(oi, Some(idx));
            repacked.push(j);
        }
        j = j + 1;
    }
    repacked
}

proof fn lemma_fold_len(owner: Seq<Option<i32>>, idxs: Seq<i32>, n: nat)
    requires
        n <= idxs.len(),
        owner.len() == CHUNK_SLOT_COUNT,
    ensures
        repack_fold(owner, idxs, n).0.len() == CHUNK_SLOT_COUNT,
    decreases n,
{
    if n > 0 {
        lemma_fold_len(owner, idxs, (n - 1) as nat);
    }
}

/// A window of ascending chunk indices spanning fewer than `CHUNK_SLOT_COUNT`
/// chunks ends up fully installed: every chunk of it owns its fixed slot.
pub proof fn law_repack_installs_window(owner: Seq<Option<i32>>, idxs: Seq<i32>)
    requires
        owner.len() == CHUNK_SLOT_COUNT,
        idxs.len() > 0,
        forall|i: int, j: int| 0 <= i < j < idxs.len() ==> idxs[i] < idxs[j],
        idxs[idxs.len() - 1] - idxs[0] < CHUNK_SLOT_COUNT,
    ensures
        forall|j: int|
            0 <= j < idxs.len() ==> #[trigger] repack_fold(owner, idxs, idxs.len()).0[(idxs[j] as int)
                % (CHUNK_SLOT_COUNT as int)] == Some(idxs[j]),
{
    lemma_installs_prefix(owner, idxs, idxs.len());
}

proof fn lemma_installs_prefix(owner: Seq<Option<i32>>, idxs: Seq<i32>, n: nat)
    requires
        owner.len() == CHUNK_SLOT_COUNT,
        n <= idxs.len(),
        idxs.len() > 0,
        forall|i: int, j: int| 0 <= i < j < idxs.len() ==> idxs[i] < idxs[j],
        idxs[idxs.len() - 1] - idxs[0] < CHUNK_SLOT_COUNT,
    ensures
        forall|j: int|
            0 <= j < n ==> #[trigger] repack_fold(owner, idxs, n).0[(idxs[j] as int) % (
            CHUNK_SLOT_COUNT as int)] == Some(idxs[j]),
    decreases n,
{
    if n > 0 {
        lemma_installs_prefix(owner, idxs, (n - 1) as nat);
        lemma_fold_len(owner, idxs, (n - 1) as nat);
        let last = idxs[n - 1];
        assert forall|j: int| 0 <= j < n - 1 implies (idxs[j] as int) % 8 != (last as int) % 8 by {
            assert(idxs[0] <= idxs[j]) by {
                if j > 0 {
                    assert(idxs[0] < idxs[j]);
                }
            };
            assert(last <= idxs[idxs.len() - 1]) by {
                if n - 1 < idxs.len() - 1 {
                    assert(idxs[n - 1] < idxs[idxs.len() - 1]);
                }
            };
            assert(idxs[j] < last);
        }
    }
}

/// With the chunk slots holding the contiguous window `start..start + 8`, a
/// one-chunk forward slide repacks only the entering chunk (the last position
/// of the new window).
pub proof fn law_forward_slide_repacks_one(owner: Seq<Option<i32>>, start: i32)
    requires
        owner.len() == CHUNK_SLOT_COUNT,
        start + CHUNK_SLOT_COUNT < i32::MAX,
        forall|i: int|
            0 <= i < CHUNK_SLOT_COUNT ==> #[trigger] owner[(start + i) % (CHUNK_SLOT_COUNT as int)]
                == Some((start + i) as i32),
    ensures
        ({
            let window = Seq::new(CHUNK_SLOT_COUNT as nat, |i: int| (start + 1 + i) as i32);
            repack_fold(owner, window, CHUNK_SLOT_COUNT as nat).1 == seq![(CHUNK_SLOT_COUNT - 1) as usize]
        }),
{
    let window = Seq::new(CHUNK_SLOT_COUNT as nat, |i: int| (start + 1 + i) as i32);
    lemma_slide_prefix_untouched(owner, start, window, 7);
    let (o, r) = repack_fold(owner, window, 7);
    assert(window[7] == (start + 8) as i32);
    assert(o[(start + 0) % 8] == Some(start));
    assert((start + 8) % 8 == (start + 0) % 8);
    assert(r.push(7usize) =~= seq![7usize]);
}

proof fn lemma_slide_prefix_untouched(owner: Seq<Option<i32>>, start: i32, window: Seq<i32>, n: nat)
    requires
        owner.len() == CHUNK_SLOT_COUNT,
        start + CHUNK_SLOT_COUNT < i32::MAX,
        window == Seq::new(CHUNK_SLOT_COUNT as nat, |i: int| (start + 1 + i) as i32),
        n <= 7,
        forall|i: int|
            0 <= i < CHUNK_SLOT_COUNT ==> #[trigger] owner[(start + i) % (CHUNK_SLOT_COUNT as int)]
                == Some((start + i) as i32),
    ensures
        repack_fold(owner, window, n).0 == owner,
        repack_fold(owner, window, n).1 == Seq::<usize>::empty(),
    decreases n,
{
    if n > 0 {
        lemma_slide_prefix_untouched(owner, start, window, (n - 1) as nat);
        let i = n as int;
        assert(window[n - 1] == (start + i) as i32);
        assert(owner[(start + i) % 8] == Some((start + i) as i32));
    }
}

/// The `(slot, mask)` of every top-level instance, in build order: the player
/// (slot 0), then each traffic car (its model's slot), then each window chunk
/// (its fixed chunk slot). Cars never cast shadows; chunks do.
pub open spec fn spec_instance(
    traffic_count: nat,
    traffic_models: nat,
    static_slots: usize,
    chunks: Seq<i32>,
    i: int,
) -> (u32, u8) {
    if i == 0 {
        (0u32, STATIC_INSTANCE_MASK)
    } else if i <= traffic_count {
        ((1 + (i - 1) % (traffic_models as int)) as u32, STATIC_INSTANCE_MASK)
    } else {
        (
            spec_chunk_slot(static_slots, chunks[i - 1 - traffic_count]) as u32,
            CHUNK_INSTANCE_MASK,
        )
    }
}

/// The instance list written into the top-level structure each frame.
pub fn instance_plan(
    traffic_count: usize,
    traffic_models: usize,
    static_slots: usize,
    chunk_indices: &[i32],
) -> (plan: Vec<(u32, u8)>)
    requires
        traffic_models > 0,
        traffic_models <= u32::MAX - 1,
        static_slots + CHUNK_SLOT_COUNT <= u32::MAX,
        1 + traffic_count + chunk_indices@.len() <= usize::MAX,
    ensures
        plan@.len() == 1 + traffic_count + chunk_indices@.len(),
        forall|i: int|
            0 <= i < plan@.len() ==> #[trigger] plan@[i] == spec_instance(
                traffic_count as nat,
                traffic_models as nat,
                static_slots,
                chunk_indices@,
                i,
            ),
{
    let mut plan: Vec<(u32, u8)> = Vec::with_capacity(INSTANCE_CAP);
    plan.push((0u32, STATIC_INSTANCE_MASK));
    let mut t: usize = 0;
    while t < traffic_count
        invariant
            t <= traffic_count,
            traffic_models > 0,
            traffic_models <= u32::MAX - 1,
            plan@.len() == 1 + t,
            forall|i: int|
                0 <= i < plan@.len() ==> #[trigger] plan@[i] == spec_instance(
                    traffic_count as nat,
                    traffic_models as nat,
                    static_slots,
                    chunk_indices@,
                    i,
                ),
        decreases traffic_count - t,
    {
        let model = (t % traffic_models) as u32;
        plan.push((1 + model, STATIC_INSTANCE_MASK));
        t = t + 1;
    }
    let mut j: usize = 0;
    while j < chunk_indices.len()
        invariant
            j <= chunk_indices@.len(),
            static_slots + CHUNK_SLOT_COUNT <= u32::MAX,
            plan@.len() == 1 + traffic_count + j,
            forall|i: int|
                0 <= i < plan@.len() ==> #[trigger] plan@[i] == spec_instance(
                    traffic_count as nat,
                    traffic_models as nat,
                    static_slots,
                    chunk_indices@,
                    i,
                ),
        decreases chunk_indices@.len() - j,
    {
        let slot = chunk_slot(static_slots, chunk_indices[j]);
        plan.push((slot as u32, CHUNK_INSTANCE_MASK));
        j = j + 1;
    }
    plan
}

} // verus!
