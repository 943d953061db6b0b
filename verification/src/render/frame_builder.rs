//! Sliding window of cached world chunks.
//!
//! The world is cut into fixed-length chunks along the road. The renderer keeps
//! the chunks `[current - WORLD_CHUNKS_BEHIND, current + WORLD_CHUNKS_AHEAD]`
//! cached in ascending chunk-index order; when the car crosses into a new chunk
//! only the indices that actually changed are rebuilt. `window_plan` decides
//! which cached slots survive a move and which indices must be built fresh.
use vstd::prelude::*;

use crate::render::{WORLD_CHUNKS_AHEAD, WORLD_CHUNKS_BEHIND};

verus! {

/// Every entry is strictly smaller than the next (ascending, no repeats).
pub open spec fn strictly_ascending(s: Seq<i32>) -> bool {
    forall|i: int, j: int| 0 <= i < j < s.len() ==> s[i] < s[j]
}

/// `v` lies inside the inclusive window `[first, last]`.
pub open spec fn in_window(v: i32, first: i32, last: i32) -> bool {
    first <= v && v <= last
}

/// The positions `0..n` of `cached` whose chunk index lies in `[first, last]`,
/// in ascending order.
pub open spec fn kept_slots(cached: Seq<i32>, first: i32, last: i32, n: nat) -> Seq<usize>
    decreases n,
{
    if n == 0 {
        Seq::empty()
    } else {
        let prev = kept_slots(cached, first, last, (n - 1) as nat);
        if in_window(cached[n - 1], first, last) {
            prev.push((n - 1) as usize)
        } else {
            prev
        }
    }
}

/// The chunk indices of `[first, hi)` that `cached` does not hold, in ascending
/// order.
pub open spec fn missing_chunks(cached: Seq<i32>, first: int, hi: int) -> Seq<i32>
    decreases hi - first,
{
    if hi <= first {
        Seq::empty()
    } else {
        let prev = missing_chunks(cached, first, hi - 1);
        if cached.contains((hi - 1) as i32) {
            prev
        } else {
            prev.push((hi - 1) as i32)
        }
    }
}

/// The inclusive chunk window the car needs while it is in chunk `current`.
pub open spec fn spec_window_bounds(current: i32) -> (i32, i32) {
    ((current - WORLD_CHUNKS_BEHIND) as i32, (current + WORLD_CHUNKS_AHEAD) as i32)
}

/// The chunk window `[current - BEHIND, current + AHEAD]` around chunk
/// `current`.
pub fn window_bounds(current: i32) -> (bounds: (i32, i32))
    requires
        i32::MIN + WORLD_CHUNKS_BEHIND <= current,
        current + WORLD_CHUNKS_AHEAD <= i32::MAX,
    ensures
        bounds == spec_window_bounds(current),
        bounds.0 == current - WORLD_CHUNKS_BEHIND,
        bounds.1 == current + WORLD_CHUNKS_AHEAD,
{
    (current - WORLD_CHUNKS_BEHIND, current + WORLD_CHUNKS_AHEAD)
}

proof fn lemma_kept_slots_stable(cached: Seq<i32>, first: i32, last: i32, c: nat, n: nat)
    requires
        c <= n <= cached.len(),
        forall|k: int| c <= k < n ==> !in_window(#[trigger] cached[k], first, last),
    ensures
        kept_slots(cached, first, last, n) == kept_slots(cached, first, last, c),
    decreases n - c,
{
    if n > c {
        lemma_kept_slots_stable(cached, first, last, c, (n - 1) as nat);
    }
}

/// Given the ascending chunk indices currently cached and the inclusive window
/// `[first, last]` the car needs, returns the slots of `cached` to keep and the
/// window indices that must be built fresh. Both lists come out ascending; the
/// merge is a single linear scan.
pub fn window_plan(cached: &[i32], first: i32, last: i32) -> (plan: (Vec<usize>, Vec<i32>))
    requires
        strictly_ascending(cached@),
        last < i32::MAX,
    ensures
        plan.0@ == kept_slots(cached@, first, last, cached@.len()),
        plan.1@ == missing_chunks(cached@, first as int, last + 1),
        first <= last + 1 ==> plan.0@.len() + plan.1@.len() == last - first + 1,
{
    let mut kept: Vec<usize> = Vec::with_capacity(cached.len());
    let mut build: Vec<i32> = Vec::new();
    let mut c: usize = 0;
    let mut want: i32 = first;
    while want <= last
        invariant
            strictly_ascending(cached@),
            last < i32::MAX,
            c <= cached@.len(),
            first <= want,
            first <= last + 1 ==> want <= last + 1,
            first > last + 1 ==> want == first,
            forall|k: int| 0 <= k < c ==> #[trigger] cached@[k] < want,
            forall|k: int|
                c <= k < cached@.len() ==> #[trigger] cached@[k] >= want || cached@[k] < first,
            kept@ == kept_slots(cached@, first, last, c as nat),
            build@ == missing_chunks(cached@, first as int, want as int),
            kept@.len() + build@.len() == want - first,
        decreases (last + 1 - want) + (cached@.len() - c),
    {
        if c < cached.len() && cached[c] == want {
            proof {
                assert(cached@.contains(want));
            }
            kept.push(c);
            c = c + 1;
            want = want + 1;
        } else if c < cached.len() && cached[c] < want {
            c = c + 1;
        } else {
            proof {
                assert forall|k: int| 0 <= k < cached@.len() implies cached@[k] != want by {
                    if k >= c {
                        assert(cached@[c as int] > want);
                        if k > c {
                            assert(cached@[c as int] < cached@[k]);
                        }
                    }
                }
                assert(!cached@.contains(want));
            }
            build.push(want);
            want = want + 1;
        }
    }
    proof {
        lemma_kept_slots_stable(cached@, first, last, c as nat, cached@.len());
        if first > last + 1 {
            assert(missing_chunks(cached@, first as int, last + 1) =~= Seq::<i32>::empty());
            assert(missing_chunks(cached@, first as int, want as int) =~= Seq::<i32>::empty());
        }
    }
    (kept, build)
}

/// The contiguous run of chunk indices `start, start + 1, ..., start + len - 1`.
pub open spec fn contiguous(start: int, len: nat) -> Seq<i32> {
    Seq::new(len, |i: int| (start + i) as i32)
}

proof fn lemma_contiguous_contains(start: int, len: nat, v: int)
    requires
        i32::MIN <= start,
        start + len <= i32::MAX + 1,
        i32::MIN <= v <= i32::MAX,
    ensures
        contiguous(start, len).contains(v as i32) <==> start <= v < start + len,
{
    if start <= v < start + len {
        assert(contiguous(start, len)[v - start] == v as i32);
    }
}

proof fn lemma_missing_empty_when_covered(start: int, len: nat, first: int, hi: int)
    requires
        i32::MIN <= start,
        start + len <= i32::MAX + 1,
        start <= first,
        hi <= start + len,
    ensures
        missing_chunks(contiguous(start, len), first, hi) == Seq::<i32>::empty(),
    decreases hi - first,
{
    if hi > first {
        lemma_missing_empty_when_covered(start, len, first, hi - 1);
        lemma_contiguous_contains(start, len, hi - 1);
    }
}

proof fn lemma_kept_from(start: int, len: nat, first: i32, last: i32, n: nat)
    requires
        i32::MIN <= start,
        start + len <= i32::MAX + 1,
        n <= len,
        first == start + 1,
        last >= start + len - 1,
    ensures
        kept_slots(contiguous(start, len), first, last, n).len() == if n == 0 { 0 } else { n - 1 },
        forall|i: int|
            0 <= i < kept_slots(contiguous(start, len), first, last, n).len() ==> #[trigger] kept_slots(
                contiguous(start, len),
                first,
                last,
                n,
            )[i] == i + 1,
    decreases n,
{
    if n > 0 {
        lemma_kept_from(start, len, first, last, (n - 1) as nat);
    }
}

proof fn lemma_kept_upto(start: int, len: nat, first: i32, last: i32, n: nat)
    requires
        i32::MIN <= start,
        start + len <= i32::MAX + 1,
        n <= len,
        len >= 1,
        first <= start,
        last == start + len - 2,
    ensures
        kept_slots(contiguous(start, len), first, last, n).len() == if n == len { n - 1 } else { n as int },
        forall|i: int|
            0 <= i < kept_slots(contiguous(start, len), first, last, n).len() ==> #[trigger] kept_slots(
                contiguous(start, len),
                first,
                last,
                n,
            )[i] == i,
    decreases n,
{
    if n > 0 {
        lemma_kept_upto(start, len, first, last, (n - 1) as nat);
    }
}

/// A forward crossing into the next chunk, with the previous window fully
/// cached, keeps every cached chunk but the one that fell behind and rebuilds
/// only the new leading chunk.
pub proof fn law_forward_crossing_rebuilds_one(start: i32, len: nat)
    requires
        len >= 1,
        start + len < i32::MAX,
    ensures
        ({
            let cached = contiguous(start as int, len);
            let first = (start + 1) as i32;
            let last = (start + len) as i32;
            &&& missing_chunks(cached, first as int, last + 1) == seq![last]
            &&& kept_slots(cached, first, last, len).len() == len - 1
            &&& forall|i: int|
                0 <= i < len - 1 ==> #[trigger] kept_slots(cached, first, last, len)[i] == i + 1
        }),
{
    let cached = contiguous(start as int, len);
    let first = (start + 1) as i32;
    let last = (start + len) as i32;
    lemma_missing_empty_when_covered(start as int, len, first as int, last as int);
    lemma_contiguous_contains(start as int, len, last as int);
    assert(missing_chunks(cached, first as int, last + 1) =~= seq![last]);
    lemma_kept_from(start as int, len, first, last, len);
}

/// A backward crossing into the previous chunk, with the previous window fully
/// cached, keeps every cached chunk but the one that fell out ahead and
/// rebuilds only the new trailing chunk.
pub proof fn law_backward_crossing_rebuilds_one(start: i32, len: nat)
    requires
        len >= 1,
        i32::MIN < start,
        start + len <= i32::MAX,
    ensures
        ({
            let cached = contiguous(start as int, len);
            let first = (start - 1) as i32;
            let last = (start + len - 2) as i32;
            &&& missing_chunks(cached, first as int, last + 1) == seq![first]
            &&& kept_slots(cached, first, last, len).len() == len - 1
            &&& forall|i: int|
                0 <= i < len - 1 ==> #[trigger] kept_slots(cached, first, last, len)[i] == i
        }),
{
    let cached = contiguous(start as int, len);
    let first = (start - 1) as i32;
    let last = (start + len - 2) as i32;
    lemma_missing_empty_when_covered(start as int, len, start as int, last + 1);
    lemma_missing_shift_first(cached, first as int, last + 1);
    lemma_contiguous_contains(start as int, len, first as int);
    assert(!cached.contains(first));
    assert(missing_chunks(cached, first as int, first as int) =~= Seq::<i32>::empty());
    assert(missing_chunks(cached, first as int, first + 1) =~= seq![first]);
    lemma_kept_upto(start as int, len, first, last, len);
}

/// Missing chunks of `[first, hi)` are those of `[first, first + 1)` followed by
/// those of `[first + 1, hi)`.
proof fn lemma_missing_shift_first(cached: Seq<i32>, first: int, hi: int)
    requires
        first < hi,
    ensures
        missing_chunks(cached, first, hi) == missing_chunks(cached, first, first + 1)
            + missing_chunks(cached, first + 1, hi),
    decreases hi - first,
{
    if hi == first + 1 {
        assert(missing_chunks(cached, first + 1, hi) =~= Seq::<i32>::empty());
        assert(missing_chunks(cached, first, hi) =~= missing_chunks(cached, first, first + 1)
            + missing_chunks(cached, first + 1, hi));
    } else {
        lemma_missing_shift_first(cached, first, hi - 1);
        let a = missing_chunks(cached, first, first + 1);
        let b = missing_chunks(cached, first + 1, hi - 1);
        if cached.contains((hi - 1) as i32) {
        } else {
            assert((a + b).push((hi - 1) as i32) =~= a + b.push((hi - 1) as i32));
        }
    }
}

proof fn lemma_kept_members(cached: Seq<i32>, first: i32, last: i32, n: nat)
    requires
        n <= cached.len(),
        cached.len() <= usize::MAX,
    ensures
        forall|i: int|
            0 <= i < kept_slots(cached, first, last, n).len() ==> {
                let k = #[trigger] kept_slots(cached, first, last, n)[i];
                k < n && in_window(cached[k as int], first, last)
            },
        forall|k: int|
            0 <= k < n && in_window(#[trigger] cached[k], first, last) ==> kept_slots(
                cached,
                first,
                last,
                n,
            ).contains(k as usize),
    decreases n,
{
    if n > 0 {
        lemma_kept_members(cached, first, last, (n - 1) as nat);
        let prev = kept_slots(cached, first, last, (n - 1) as nat);
        let cur = kept_slots(cached, first, last, n);
        assert forall|k: int| 0 <= k < n && in_window(#[trigger] cached[k], first, last) implies cur.contains(
            k as usize,
        ) by {
            if k < n - 1 {
                let j = choose|j: int| 0 <= j < prev.len() && prev[j] == k as usize;
                assert(cur[j] == prev[j]);
            } else {
                assert(cur[cur.len() - 1] == k as usize);
            }
        }
    }
}

proof fn lemma_missing_members(cached: Seq<i32>, first: int, hi: int)
    requires
        i32::MIN <= first,
        hi <= i32::MAX + 1,
    ensures
        forall|i: int|
            0 <= i < missing_chunks(cached, first, hi).len() ==> {
                let v = #[trigger] missing_chunks(cached, first, hi)[i];
                first <= v < hi && !cached.contains(v)
            },
        forall|v: i32|
            first <= v < hi && !cached.contains(v) ==> #[trigger] missing_chunks(
                cached,
                first,
                hi,
            ).contains(v),
    decreases hi - first,
{
    if hi > first {
        lemma_missing_members(cached, first, hi - 1);
        let prev = missing_chunks(cached, first, hi - 1);
        let cur = missing_chunks(cached, first, hi);
        assert forall|v: i32| first <= v < hi && !cached.contains(v) implies #[trigger] cur.contains(v) by {
            if v < hi - 1 {
                assert(prev.contains(v));
                let j = choose|j: int| 0 <= j < prev.len() && prev[j] == v;
                assert(cur[j] == prev[j]);
            } else {
                assert(cur[cur.len() - 1] == v);
            }
        }
    }
}

/// The plan covers the window exactly: every kept slot names a cached chunk
/// inside the window and every cached chunk inside the window is kept; every
/// rebuilt index lies in the window and is not cached, and every window index
/// that is not cached is rebuilt.
pub proof fn law_window_plan_exact(cached: Seq<i32>, first: i32, last: i32)
    requires
        last < i32::MAX,
        cached.len() <= usize::MAX,
    ensures
        forall|i: int|
            0 <= i < kept_slots(cached, first, last, cached.len()).len() ==> {
                let k = #[trigger] kept_slots(cached, first, last, cached.len())[i];
                k < cached.len() && in_window(cached[k as int], first, last)
            },
        forall|k: int|
            0 <= k < cached.len() && in_window(#[trigger] cached[k], first, last) ==> kept_slots(
                cached,
                first,
                last,
                cached.len(),
            ).contains(k as usize),
        forall|i: int|
            0 <= i < missing_chunks(cached, first as int, last + 1).len() ==> {
                let v = #[trigger] missing_chunks(cached, first as int, last + 1)[i];
                in_window(v, first, last) && !cached.contains(v)
            },
        forall|v: i32|
            in_window(v, first, last) && !cached.contains(v) ==> #[trigger] missing_chunks(
                cached,
                first as int,
                last + 1,
            ).contains(v),
{
    lemma_kept_members(cached, first, last, cached.len());
    lemma_missing_members(cached, first as int, last + 1);
}

/// Chunks in the window: the current chunk plus those behind and ahead.
pub const WINDOW_LEN: usize = 8;

/// The cached world-chunk meshes, in ascending chunk-index order, with the
/// chunk index each one covers and the chunk the window is anchored at.
pub struct ChunkWindow<C> {
    chunks: Vec<C>,
    indices: Vec<i32>,
    anchor: i32,
}

impl<C> ChunkWindow<C> {
    /// The cached chunk meshes.
    pub closed spec fn chunks_view(&self) -> Seq<C> {
        self.chunks@
    }

    /// The chunk index each cached mesh covers.
    pub closed spec fn indices_view(&self) -> Seq<i32> {
        self.indices@
    }

    /// The chunk the window is anchored at (`i32::MIN` before the first use).
    pub closed spec fn anchor_view(&self) -> i32 {
        self.anchor
    }

    /// One index per mesh, ascending without repeats.
    pub open spec fn wf(&self) -> bool {
        &&& self.chunks_view().len() == self.indices_view().len()
        &&& strictly_ascending(self.indices_view())
    }

    /// An empty cache that is anchored nowhere yet.
    pub fn new() -> (w: ChunkWindow<C>)
        ensures
            w.wf(),
            w.chunks_view().len() == 0,
            w.anchor_view() == i32::MIN,
    {
        ChunkWindow { chunks: Vec::new(), indices: Vec::new(), anchor: i32::MIN }
    }

    /// The cached meshes, ascending by chunk index.
    pub fn chunks(&self) -> (c: &[C])
        ensures
            c@ == self.chunks_view(),
    {
        self.chunks.as_slice()
    }

    /// The chunk indices of the cached meshes, ascending.
    pub fn indices(&self) -> (i: &[i32])
        ensures
            i@ == self.indices_view(),
    {
        self.indices.as_slice()
    }

    /// Re-anchors the cache at chunk `current`: a no-op when it is already
    /// anchored there; otherwise every chunk of the new window that was cached
    /// is kept as is, every other one is built with `build`, the chunks that
    /// left the window are dropped, and the window stays ascending. Returns how
    /// many chunks were built.
    pub fn recenter<F: Fn(i32) -> C>(&mut self, current: i32, build: F) -> (rebuilt: usize)
        requires
            old(self).wf(),
            i32::MIN + WORLD_CHUNKS_BEHIND < current,
            current + WORLD_CHUNKS_AHEAD < i32::MAX,
            forall|i: i32| call_requires(build, (i,)),
        ensures
            final(self).wf(),
            current == old(self).anchor_view() ==> *final(self) == *old(self) && rebuilt == 0,
            current != old(self).anchor_view() ==> {
                let first = current - WORLD_CHUNKS_BEHIND;
                &&& final(self).anchor_view() == current
                &&& final(self).indices_view() == contiguous(first, WINDOW_LEN as nat)
                &&& rebuilt == missing_chunks(
                    old(self).indices_view(),
                    first,
                    current + WORLD_CHUNKS_AHEAD + 1,
                ).len()
                &&& forall|j: int|
                    0 <= j < WINDOW_LEN ==> {
                        let idx = (first + j) as i32;
                        if old(self).indices_view().contains(idx) {
                            exists|p: int|
                                0 <= p < old(self).indices_view().len() && old(
                                    self,
                                ).indices_view()[p] == idx && #[trigger] final(self).chunks_view()[j]
                                    == old(self).chunks_view()[p]
                        } else {
                            call_ensures(build, (idx,), final(self).chunks_view()[j])
                        }
                    }
            },
    {
        if current == self.anchor {
            return 0;
        }
        let first = current - WORLD_CHUNKS_BEHIND;
        let last = current + WORLD_CHUNKS_AHEAD;
        let ghost old_idx = self.indices@;
        let ghost old_chunks = self.chunks@;
        let mut rest_c: Vec<C> = Vec::new();
        let mut rest_i: Vec<i32> = Vec::new();
        std::mem::swap(&mut rest_c, &mut self.chunks);
        std::mem::swap(&mut rest_i, &mut self.indices);
        let mut rev_c: Vec<C> = Vec::new();
        let mut rev_i: Vec<i32> = Vec::new();
        let mut rebuilt: usize = 0;
        let mut w: i32 = last;
        while w >= first
            invariant
                first == current - WORLD_CHUNKS_BEHIND,
                last == current + WORLD_CHUNKS_AHEAD,
                i32::MIN < first,
                first - 1 <= w <= last,
                forall|i: i32| call_requires(build, (i,)),
                strictly_ascending(old_idx),
                old_idx.len() == old_chunks.len(),
                rest_i@.len() == rest_c@.len(),
                rest_i@.len() <= old_idx.len(),
                rest_i@ == old_idx.subrange(0, rest_i@.len() as int),
                rest_c@ == old_chunks.subrange(0, rest_c@.len() as int),
                forall|k: int| rest_i@.len() <= k < old_idx.len() ==> #[trigger] old_idx[k] > w,
                rev_i@.len() == last - w,
                rev_c@.len() == rev_i@.len(),
                forall|t: int| 0 <= t < rev_i@.len() ==> #[trigger] rev_i@[t] == last - t,
                forall|t: int|
                    0 <= t < rev_i@.len() ==> {
                        let idx = rev_i@[t];
                        if old_idx.contains(idx) {
                            exists|p: int|
                                0 <= p < old_idx.len() && old_idx[p] == idx && #[trigger] rev_c@[t]
                                    == old_chunks[p]
                        } else {
                            call_ensures(build, (idx,), rev_c@[t])
                        }
                    },
                rebuilt == missing_chunks(old_idx, first as int, last + 1).len() - missing_chunks(
                    old_idx,
                    first as int,
                    w + 1,
                ).len(),
                rebuilt <= last - w,
            decreases w - first + 1,
        {
            while rest_i.len() > 0 && rest_i[rest_i.len() - 1] > w
                invariant
                    strictly_ascending(old_idx),
                    old_idx.len() == old_chunks.len(),
                    rest_i@.len() == rest_c@.len(),
                    rest_i@.len() <= old_idx.len(),
                    rest_i@ == old_idx.subrange(0, rest_i@.len() as int),
                    rest_c@ == old_chunks.subrange(0, rest_c@.len() as int),
                    forall|k: int| rest_i@.len() <= k < old_idx.len() ==> #[trigger] old_idx[k] > w,
                decreases rest_i@.len(),
            {
                rest_i.pop();
                rest_c.pop();
            }
            proof {
                lemma_missing_step(old_idx, first as int, w as int);
            }
            if rest_i.len() > 0 && rest_i[rest_i.len() - 1] == w {
                let ghost p = rest_i@.len() - 1;
                let i = rest_i.pop().unwrap();
                let c = rest_c.pop().unwrap();
                proof {
                    assert(old_idx[p] == w);
                    assert(old_idx.contains(w));
                }
                rev_i.push(i);
                rev_c.push(c);
            } else {
                proof {
                    assert forall|k: int| 0 <= k < old_idx.len() implies old_idx[k] != w by {
                        if k < rest_i@.len() {
                            assert(old_idx[k] <= old_idx[rest_i@.len() - 1]) by {
                                if k < rest_i@.len() - 1 {
                                    assert(old_idx[k] < old_idx[rest_i@.len() - 1]);
                                }
                            }
                        }
                    }
                    assert(!old_idx.contains(w));
                }
                let c = build(w);
                rev_i.push(w);
                rev_c.push(c);
                rebuilt = rebuilt + 1;
            }
            proof {
                assert forall|k: int| rest_i@.len() <= k < old_idx.len() implies #[trigger] old_idx[k] > w - 1 by {
                    if k >= rest_i@.len() {
                    }
                }
            }
            w = w - 1;
        }
        let ghost rev_i0 = rev_i@;
        let ghost rev_c0 = rev_c@;
        let mut out_c: Vec<C> = Vec::new();
        let mut out_i: Vec<i32> = Vec::new();
        while rev_i.len() > 0
            invariant
                rev_i0.len() == WINDOW_LEN,
                rev_c0.len() == WINDOW_LEN,
                rev_i@.len() == rev_c@.len(),
                rev_i@.len() + out_i@.len() == WINDOW_LEN,
                out_i@.len() == out_c@.len(),
                rev_i@ == rev_i0.subrange(0, rev_i@.len() as int),
                rev_c@ == rev_c0.subrange(0, rev_c@.len() as int),
                forall|j: int|
                    0 <= j < out_i@.len() ==> #[trigger] out_i@[j] == rev_i0[WINDOW_LEN - 1 - j],
                forall|j: int|
                    0 <= j < out_c@.len() ==> #[trigger] out_c@[j] == rev_c0[WINDOW_LEN - 1 - j],
            decreases rev_i@.len(),
        {
            let i = rev_i.pop().unwrap();
            let c = rev_c.pop().unwrap();
            out_i.push(i);
            out_c.push(c);
        }
        proof {
            assert(missing_chunks(old_idx, first as int, first as int).len() == 0);
            assert forall|j: int| 0 <= j < WINDOW_LEN implies #[trigger] out_i@[j] == contiguous(
                first as int,
                WINDOW_LEN as nat,
            )[j] by {
                assert(rev_i0[WINDOW_LEN - 1 - j] == last - (WINDOW_LEN - 1 - j));
            }
            assert(out_i@ =~= contiguous(first as int, WINDOW_LEN as nat));
            assert forall|i: int, j: int| 0 <= i < j < out_i@.len() implies out_i@[i] < out_i@[j] by {
                assert(out_i@[i] == contiguous(first as int, WINDOW_LEN as nat)[i]);
                assert(out_i@[j] == contiguous(first as int, WINDOW_LEN as nat)[j]);
            }
        }
        self.chunks = out_c;
        self.indices = out_i;
        self.anchor = current;
        proof {
            assert forall|j: int| 0 <= j < WINDOW_LEN implies {
                let idx = (first + j) as i32;
                if old_idx.contains(idx) {
                    exists|p: int|
                        0 <= p < old_idx.len() && old_idx[p] == idx && #[trigger] self.chunks@[j]
                            == old_chunks[p]
                } else {
                    call_ensures(build, (idx,), self.chunks@[j])
                }
            } by {
                let t = WINDOW_LEN - 1 - j;
                assert(self.chunks@[j] == rev_c0[t]);
                assert(rev_i0[t] == (first + j) as i32);
            }
        }
        rebuilt
    }
}

/// Once the window is anchored at chunk `current` and fully cached, moving the
/// anchor one chunk forward or one chunk back makes `recenter` build exactly
/// one chunk.
pub proof fn law_recenter_neighbour_rebuilds_one(current: i32)
    requires
        i32::MIN + WORLD_CHUNKS_BEHIND + 1 < current,
        current + WORLD_CHUNKS_AHEAD + 1 < i32::MAX,
    ensures
        ({
            let cached = contiguous(current - WORLD_CHUNKS_BEHIND, WINDOW_LEN as nat);
            let next = current + 1;
            let prev = current - 1;
            &&& missing_chunks(
                cached,
                next - WORLD_CHUNKS_BEHIND,
                next + WORLD_CHUNKS_AHEAD + 1,
            ).len() == 1
            &&& missing_chunks(
                cached,
                prev - WORLD_CHUNKS_BEHIND,
                prev + WORLD_CHUNKS_AHEAD + 1,
            ).len() == 1
        }),
{
    let start = (current - WORLD_CHUNKS_BEHIND) as i32;
    law_forward_crossing_rebuilds_one(start, WINDOW_LEN as nat);
    law_backward_crossing_rebuilds_one(start, WINDOW_LEN as nat);
}

proof fn lemma_missing_step(cached: Seq<i32>, first: int, w: int)
    requires
        first <= w,
    ensures
        missing_chunks(cached, first, w + 1).len() == missing_chunks(cached, first, w).len() + if cached.contains(w as i32) { 0int } else { 1int },
{
}

/// Total vertex count of chunk meshes with the given `(vertices, indices)`
/// buffer lengths.
pub open spec fn total_vertices(meshes: Seq<(usize, usize)>) -> nat
    decreases meshes.len(),
{
    if meshes.len() == 0 {
        0
    } else {
        total_vertices(meshes.drop_last()) + meshes.last().0 as nat
    }
}

/// Total triangle count of chunk meshes with the given `(vertices, indices)`
/// buffer lengths: each mesh contributes a third of its indices, rounded down.
pub open spec fn total_triangles(meshes: Seq<(usize, usize)>) -> nat
    decreases meshes.len(),
{
    if meshes.len() == 0 {
        0
    } else {
        total_triangles(meshes.drop_last()) + (meshes.last().1 / 3) as nat
    }
}

/// The world statistics of the cached chunks: their vertex total and their
/// triangle total.
pub fn world_totals(meshes: &[(usize, usize)]) -> (totals: (usize, usize))
    requires
        total_vertices(meshes@) <= usize::MAX,
        total_triangles(meshes@) <= usize::MAX,
    ensures
        totals.0 == total_vertices(meshes@),
        totals.1 == total_triangles(meshes@),
{
    let mut verts: usize = 0;
    let mut tris: usize = 0;
    let mut i: usize = 0;
    while i < meshes.len()
        invariant
            i <= meshes@.len(),
            total_vertices(meshes@) <= usize::MAX,
            total_triangles(meshes@) <= usize::MAX,
            verts == total_vertices(meshes@.subrange(0, i as int)),
            tris == total_triangles(meshes@.subrange(0, i as int)),
        decreases meshes@.len() - i,
    {
        proof {
            let next = meshes@.subrange(0, i + 1);
            assert(next.drop_last() =~= meshes@.subrange(0, i as int));
            lemma_totals_prefix(meshes@, i + 1);
        }
        let (v, n) = meshes[i];
        verts = verts + v;
        tris = tris + n / 3;
        i = i + 1;
    }
    assert(meshes@.subrange(0, i as int) =~= meshes@);
    (verts, tris)
}

/// The totals of a prefix never exceed those of the whole sequence.
proof fn lemma_totals_prefix(meshes: Seq<(usize, usize)>, n: int)
    requires
        0 <= n <= meshes.len(),
    ensures
        total_vertices(meshes.subrange(0, n)) <= total_vertices(meshes),
        total_triangles(meshes.subrange(0, n)) <= total_triangles(meshes),
    decreases meshes.len() - n,
{
    if n < meshes.len() {
        lemma_totals_prefix(meshes, n + 1);
        assert(meshes.subrange(0, n + 1).drop_last() =~= meshes.subrange(0, n));
    } else {
        assert(meshes.subrange(0, n) =~= meshes);
    }
}

} // verus!
