//! Bookkeeping of the background chunk builder.
//!
//! World chunks are a pure function of their index, so they are built and
//! uploaded ahead of the car by a pool of workers. The render thread keeps two
//! books: the committed chunks by index, and the indices requested but not yet
//! committed (so a chunk is never queued twice). A generation counter
//! invalidates builds that were queued before a reset (a terrain-detail
//! change). The chunk payload is opaque to the books.
use vstd::prelude::*;
use std::collections::HashMap;
use std::collections::HashSet;

verus! {

broadcast use vstd::std_specs::hash::group_hash_axioms;

/// The committed chunks and in-flight requests of the chunk builder.
pub struct ChunkBook<C> {
    ready: HashMap<i32, C>,
    pending: HashSet<i32>,
    generation: u64,
}

/// The chunk indices of `indices` that still need a build, in order: those
/// neither committed nor requested, each kept once (at its first occurrence).
pub open spec fn new_requests(ready: Set<i32>, pending: Set<i32>, indices: Seq<i32>, n: nat) -> Seq<i32>
    decreases n,
{
    if n == 0 {
        Seq::empty()
    } else {
        let prev = new_requests(ready, pending, indices, (n - 1) as nat);
        let idx = indices[n - 1];
        if ready.contains(idx) || pending.contains(idx) || prev.contains(idx) {
            prev
        } else {
            prev.push(idx)
        }
    }
}

/// The indices of `want[0..n]` that are not committed, in order.
pub open spec fn missing_from(ready: Set<i32>, want: Seq<i32>, n: nat) -> Seq<i32>
    decreases n,
{
    if n == 0 {
        Seq::empty()
    } else {
        let prev = missing_from(ready, want, (n - 1) as nat);
        if ready.contains(want[n - 1]) {
            prev
        } else {
            prev.push(want[n - 1])
        }
    }
}

impl<C> ChunkBook<C> {
    /// Committed chunks by index.
    pub closed spec fn ready_view(&self) -> Map<i32, C> {
        self.ready@
    }

    /// Indices requested but not yet committed.
    pub closed spec fn pending_view(&self) -> Set<i32> {
        self.pending@
    }

    /// The current build generation.
    pub closed spec fn generation_view(&self) -> u64 {
        self.generation
    }

    /// The books are consistent: a chunk is never both committed and in
    /// flight.
    pub closed spec fn wf(&self) -> bool {
        forall|i: i32| !(self.ready@.contains_key(i) && #[trigger] self.pending@.contains(i))
    }

    /// Empty books at generation zero.
    pub fn new() -> (b: ChunkBook<C>)
        ensures
            b.wf(),
            b.ready_view() == Map::<i32, C>::empty(),
            b.pending_view() == Set::<i32>::empty(),
            b.generation_view() == 0,
    {
        ChunkBook { ready: HashMap::new(), pending: HashSet::new(), generation: 0 }
    }

    /// The generation that new build jobs are tagged with.
    pub fn generation(&self) -> (g: u64)
        ensures
            g == self.generation_view(),
    {
        self.generation
    }

    /// Records a request for every index of `indices` that is neither
    /// committed nor in flight, and returns those indices (in order, each
    /// once): the builds to queue.
    pub fn request(&mut self, indices: &[i32]) -> (jobs: Vec<i32>)
        requires
            old(self).wf(),
        ensures
            final(self).wf(),
            jobs@ == new_requests(
                old(self).ready_view().dom(),
                old(self).pending_view(),
                indices@,
                indices@.len(),
            ),
            final(self).pending_view() == old(self).pending_view() + jobs@.to_set(),
            final(self).ready_view() == old(self).ready_view(),
            final(self).generation_view() == old(self).generation_view(),
    {
        let ghost pending0 = self.pending@;
        let ghost ready0 = self.ready@.dom();
        proof {
            assert forall|i: i32| !(#[trigger] ready0.contains(i) && pending0.contains(i)) by {
                if pending0.contains(i) {
                    assert(!(self.ready@.contains_key(i) && self.pending@.contains(i)));
                }
            }
        }
        let mut jobs: Vec<i32> = Vec::new();
        let mut k: usize = 0;
        while k < indices.len()
            invariant
                k <= indices@.len(),
                ready0 == self.ready@.dom(),
                self.ready@ == old(self).ready@,
                self.generation == old(self).generation,
                forall|i: i32| !(#[trigger] ready0.contains(i) && pending0.contains(i)),
                jobs@ == new_requests(ready0, pending0, indices@, k as nat),
                self.pending@ == pending0 + jobs@.to_set(),
                forall|i: int| 0 <= i < jobs@.len() ==> !ready0.contains(#[trigger] jobs@[i]),
            decreases indices@.len() - k,
        {
            let index = indices[k];
            let ghost before = jobs@;
            if self.ready.contains_key(&index) || self.pending.contains(&index) {
                proof {
                    if !ready0.contains(index) && !pending0.contains(index) {
                        assert(before.to_set().contains(index));
                        assert(before.contains(index));
                    }
                }
            } else {
                proof {
                    assert(!before.contains(index)) by {
                        if before.contains(index) {
                            let j = choose|j: int| 0 <= j < before.len() && before[j] == index;
                            assert(before.to_set().contains(index));
                        }
                    }
                }
                self.pending.insert(index);
                jobs.push(index);
                proof {
                    assert forall|v: i32| #[trigger] jobs@.to_set().contains(v) == before.to_set().insert(
                        index,
                    ).contains(v) by {
                        if jobs@.contains(v) && v != index {
                            let j = choose|j: int| 0 <= j < jobs@.len() && jobs@[j] == v;
                            assert(before[j] == v);
                        }
                        if before.contains(v) {
                            let j = choose|j: int| 0 <= j < before.len() && before[j] == v;
                            assert(jobs@[j] == v);
                        }
                        if v == index {
                            assert(jobs@[jobs@.len() - 1] == v);
                        }
                    }
                    assert(jobs@.to_set() =~= before.to_set().insert(index));
                }
            }
            k = k + 1;
        }
        proof {
            assert forall|i: i32| !(self.ready@.contains_key(i) && #[trigger] self.pending@.contains(i)) by {
                if self.pending@.contains(i) && !pending0.contains(i) {
                    assert(jobs@.to_set().contains(i));
                    let j = choose|j: int| 0 <= j < jobs@.len() && jobs@[j] == i;
                    assert(!ready0.contains(jobs@[j]));
                }
            }
        }
        jobs
    }

    /// Commits a finished build of `index` tagged with `generation`: the index
    /// leaves the in-flight set, and the chunk is kept only when it was built
    /// for the current generation (stale builds are dropped).
    pub fn commit(&mut self, index: i32, generation: u64, chunk: C)
        requires
            old(self).wf(),
        ensures
            final(self).wf(),
            final(self).pending_view() == old(self).pending_view().remove(index),
            generation == old(self).generation_view() ==> final(self).ready_view() == old(
                self,
            ).ready_view().insert(index, chunk),
            generation != old(self).generation_view() ==> final(self).ready_view() == old(
                self,
            ).ready_view(),
            final(self).generation_view() == old(self).generation_view(),
    {
        self.pending.remove(&index);
        if generation == self.generation {
            self.ready.insert(index, chunk);
        }
    }

    /// Commits a chunk built in line by the render thread (a straggler).
    pub fn insert_built(&mut self, index: i32, chunk: C)
        requires
            old(self).wf(),
        ensures
            final(self).wf(),
            final(self).pending_view() == old(self).pending_view().remove(index),
            final(self).ready_view() == old(self).ready_view().insert(index, chunk),
            final(self).generation_view() == old(self).generation_view(),
    {
        self.pending.remove(&index);
        self.ready.insert(index, chunk);
    }

    /// The indices of `want` that are not committed yet, in order.
    pub fn missing(&self, want: &[i32]) -> (m: Vec<i32>)
        ensures
            m@ == missing_from(self.ready_view().dom(), want@, want@.len()),
    {
        let mut m: Vec<i32> = Vec::new();
        let mut k: usize = 0;
        while k < want.len()
            invariant
                k <= want@.len(),
                m@ == missing_from(self.ready@.dom(), want@, k as nat),
            decreases want@.len() - k,
        {
            if !self.ready.contains_key(&want[k]) {
                m.push(want[k]);
            }
            k = k + 1;
        }
        m
    }

    /// Removes a committed chunk and hands it out.
    pub fn take(&mut self, index: i32) -> (c: Option<C>)
        requires
            old(self).wf(),
        ensures
            final(self).wf(),
            final(self).ready_view() == old(self).ready_view().remove(index),
            final(self).pending_view() == old(self).pending_view(),
            final(self).generation_view() == old(self).generation_view(),
            match c {
                Some(v) => old(self).ready_view().contains_key(index) && v == old(
                    self,
                ).ready_view()[index],
                None => !old(self).ready_view().contains_key(index),
            },
    {
        self.ready.remove(&index)
    }

    /// Drops everything and starts a new generation, so builds queued before
    /// are dropped when they finish.
    pub fn reset(&mut self)
        requires
            old(self).generation_view() < u64::MAX,
        ensures
            final(self).wf(),
            final(self).ready_view() == Map::<i32, C>::empty(),
            final(self).pending_view() == Set::<i32>::empty(),
            final(self).generation_view() == old(self).generation_view() + 1,
    {
        self.generation = self.generation + 1;
        self.ready.clear();
        self.pending.clear();
    }

    /// Drops the committed chunks outside `[min, max]` (the window plus a
    /// prefetch margin), so the books stay bounded while the car drives on.
    pub fn evict_outside(&mut self, min: i32, max: i32)
        requires
            old(self).wf(),
        ensures
            final(self).wf(),
            final(self).ready_view() == old(self).ready_view().restrict(
                Set::new(|i: i32| min <= i <= max),
            ),
            final(self).pending_view() == old(self).pending_view(),
            final(self).generation_view() == old(self).generation_view(),
    {
        let ghost keys0 = self.ready@.dom();
        let mut doomed: Vec<i32> = Vec::new();
        for k in it: self.ready.keys()
            invariant
                it.seq().unref().to_set() == keys0,
                forall|j: int| 0 <= j < doomed@.len() ==> {
                    let d = #[trigger] doomed@[j];
                    keys0.contains(d) && !(min <= d <= max)
                },
                forall|j: int|
                    0 <= j < it.index() ==> {
                        let d = *#[trigger] it.seq()[j];
                        !(min <= d <= max) ==> doomed@.contains(d)
                    },
            ensures
                forall|d: i32| keys0.contains(d) && !(min <= d <= max) ==> #[trigger] doomed@.contains(d),
        {
            let ghost before = doomed@;
            let ghost idx = it.index();
            assert(it.seq()[idx] == k);
            if *k < min || *k > max {
                doomed.push(*k);
            }
            proof {
                assert forall|j: int| 0 <= j < idx + 1 implies {
                    let d = *#[trigger] it.seq()[j];
                    !(min <= d <= max) ==> doomed@.contains(d)
                } by {
                    let d = *it.seq()[j];
                    if !(min <= d <= max) {
                        if j < idx {
                            assert(before.contains(d));
                            let t = choose|t: int| 0 <= t < before.len() && before[t] == d;
                            assert(doomed@[t] == d);
                        } else {
                            assert(doomed@[doomed@.len() - 1] == d);
                        }
                    }
                }
            }
        }
        let ghost ready0 = self.ready@;
        let mut j: usize = 0;
        while j < doomed.len()
            invariant
                j <= doomed@.len(),
                ready0.dom() == keys0,
                self.pending@ == old(self).pending@,
                self.generation == old(self).generation,
                self.ready@ == ready0.remove_keys(doomed@.subrange(0, j as int).to_set()),
            decreases doomed@.len() - j,
        {
            let ghost before = self.ready@;
            self.ready.remove(&doomed[j]);
            proof {
                let pre = doomed@.subrange(0, j as int);
                let post = doomed@.subrange(0, j + 1);
                assert forall|d: i32| #[trigger] post.to_set().contains(d) == pre.to_set().insert(
                    doomed@[j as int],
                ).contains(d) by {
                    if post.contains(d) {
                        let t = choose|t: int| 0 <= t < post.len() && post[t] == d;
                        if t < j {
                            assert(pre[t] == d);
                        }
                    }
                    if pre.contains(d) {
                        let t = choose|t: int| 0 <= t < pre.len() && pre[t] == d;
                        assert(post[t] == d);
                    }
                    if d == doomed@[j as int] {
                        assert(post[j as int] == d);
                    }
                }
                assert(post.to_set() =~= pre.to_set().insert(doomed@[j as int]));
                assert(self.ready@ =~= ready0.remove_keys(doomed@.subrange(0, j + 1).to_set()));
            }
            j = j + 1;
        }
        proof {
            assert(doomed@.subrange(0, doomed@.len() as int) =~= doomed@);
            assert(self.ready@ =~= ready0.restrict(Set::new(|i: i32| min <= i <= max)));
        }
    }

    /// Number of committed chunks.
    pub fn cached_count(&self) -> (n: usize)
        ensures
            n == self.ready_view().len(),
    {
        self.ready.len()
    }

    /// Number of requested builds not yet committed.
    pub fn pending_count(&self) -> (n: usize)
        ensures
            n == self.pending_view().len(),
    {
        self.pending.len()
    }
}

/// The books never hold a chunk as both committed and in flight, so a
/// committed chunk is never queued again and an in-flight one never twice.
pub proof fn law_committed_and_pending_are_disjoint<C>(b: &ChunkBook<C>, i: i32)
    requires
        b.wf(),
    ensures
        !(b.ready_view().contains_key(i) && b.pending_view().contains(i)),
{
    assert(!(b.ready@.contains_key(i) && b.pending@.contains(i)));
}

/// A request batch never queues an index twice, nor one that is already
/// committed or in flight, and it queues every other index it names.
pub proof fn law_requests_are_deduplicated(ready: Set<i32>, pending: Set<i32>, indices: Seq<i32>, n: nat)
    requires
        n <= indices.len(),
    ensures
        new_requests(ready, pending, indices, n).no_duplicates(),
        forall|i: int|
            0 <= i < new_requests(ready, pending, indices, n).len() ==> {
                let v = #[trigger] new_requests(ready, pending, indices, n)[i];
                !ready.contains(v) && !pending.contains(v)
            },
        forall|k: int|
            0 <= k < n && !ready.contains(#[trigger] indices[k]) && !pending.contains(indices[k])
                ==> new_requests(ready, pending, indices, n).contains(indices[k]),
    decreases n,
{
    if n > 0 {
        law_requests_are_deduplicated(ready, pending, indices, (n - 1) as nat);
        let prev = new_requests(ready, pending, indices, (n - 1) as nat);
        let cur = new_requests(ready, pending, indices, n);
        assert forall|k: int|
            0 <= k < n && !ready.contains(#[trigger] indices[k]) && !pending.contains(indices[k])
                implies cur.contains(indices[k]) by {
            if k < n - 1 {
                assert(prev.contains(indices[k]));
                let j = choose|j: int| 0 <= j < prev.len() && prev[j] == indices[k];
                assert(cur[j] == prev[j]);
            } else if !prev.contains(indices[k]) {
                assert(cur[cur.len() - 1] == indices[k]);
            } else {
                assert(cur == prev);
            }
        }
    }
}

} // verus!
