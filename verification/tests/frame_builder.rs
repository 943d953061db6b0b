use lane_lunacy::render::frame_builder::{window_bounds, window_plan, ChunkWindow, WINDOW_LEN};
use lane_lunacy::render::{WORLD_CHUNKS_AHEAD, WORLD_CHUNKS_BEHIND};

fn window(c: i32) -> (i32, i32) {
    window_bounds(c)
}

#[test]
fn initial_window_builds_every_chunk() {
    let (first, last) = window(0);
    let (kept, build) = window_plan(&[], first, last);
    assert!(kept.is_empty());
    assert_eq!(
        build.len(),
        (WORLD_CHUNKS_AHEAD + WORLD_CHUNKS_BEHIND + 1) as usize
    );
    assert_eq!(build.first().copied(), Some(first));
    assert_eq!(build.last().copied(), Some(last));
}

#[test]
fn forward_crossing_rebuilds_only_the_new_leading_chunk() {
    let (f0, l0) = window(0);
    let cached: Vec<i32> = (f0..=l0).collect();
    let (f1, l1) = window(1);
    let (kept, build) = window_plan(&cached, f1, l1);
    // All but the dropped trailing chunk are reused.
    assert_eq!(kept.len(), cached.len() - 1);
    assert_eq!(build, vec![l1]);
}

#[test]
fn backward_crossing_rebuilds_only_the_new_leading_chunk() {
    let (f0, l0) = window(10);
    let cached: Vec<i32> = (f0..=l0).collect();
    let (f1, l1) = window(9);
    let (kept, build) = window_plan(&cached, f1, l1);
    assert_eq!(kept.len(), cached.len() - 1);
    assert_eq!(build, vec![f1]);
}

#[test]
fn teleport_rebuilds_entirely_non_overlapping_window() {
    let cached: Vec<i32> = (-1..=6).collect();
    let (f, l) = window(100);
    let (kept, build) = window_plan(&cached, f, l);
    assert!(kept.is_empty());
    assert_eq!(build.first().copied(), Some(f));
    assert_eq!(build.last().copied(), Some(l));
}

#[test]
fn overlapping_teleport_keeps_intersection_and_rebuilds_the_rest() {
    let cached: Vec<i32> = (-1..=6).collect();
    // Jump forward 3: overlap is indices 2..=6, rebuild 7..=9.
    let (f, l) = window(3);
    let (kept, build) = window_plan(&cached, f, l);
    assert_eq!(kept.len(), 5);
    assert_eq!(build, vec![7, 8, 9]);
}

#[test]
fn window_bounds_span_behind_and_ahead() {
    assert_eq!(window_bounds(0), (-1, 6));
    assert_eq!(window_bounds(10), (9, 16));
    assert_eq!(window_bounds(-5), (-6, 1));
}

#[test]
fn forward_crossing_keeps_exact_slots() {
    let cached: Vec<i32> = (-1..=6).collect();
    let (kept, build) = window_plan(&cached, 0, 7);
    assert_eq!(kept, vec![1, 2, 3, 4, 5, 6, 7]);
    assert_eq!(build, vec![7]);
}

#[test]
fn backward_crossing_keeps_exact_slots() {
    let cached: Vec<i32> = (9..=16).collect();
    let (kept, build) = window_plan(&cached, 8, 15);
    assert_eq!(kept, vec![0, 1, 2, 3, 4, 5, 6]);
    assert_eq!(build, vec![8]);
}

#[test]
fn sparse_cache_fills_every_gap() {
    let cached = vec![-10, 1, 3, 4, 20];
    let (kept, build) = window_plan(&cached, 0, 5);
    assert_eq!(kept, vec![1, 2, 3]);
    assert_eq!(build, vec![0, 2, 5]);
    // kept + rebuilt always cover the whole window exactly once
    assert_eq!(kept.len() + build.len(), 6);
}

#[test]
fn empty_window_plans_nothing() {
    let cached = vec![1, 2, 3];
    let (kept, build) = window_plan(&cached, 5, 4);
    assert!(kept.is_empty());
    assert!(build.is_empty());
}

#[test]
fn window_at_the_top_of_the_index_range() {
    let cached = vec![i32::MAX - 3, i32::MAX - 2];
    let (kept, build) = window_plan(&cached, i32::MAX - 2, i32::MAX - 1);
    assert_eq!(kept, vec![1]);
    assert_eq!(build, vec![i32::MAX - 1]);
}

/// A mesh stand-in that records which chunk it was built for and in which build.
#[derive(Clone, Debug, PartialEq)]
struct Built {
    chunk: i32,
    tag: u32,
}

#[test]
fn chunk_window_first_recenter_builds_the_whole_window() {
    let mut w: ChunkWindow<Built> = ChunkWindow::new();
    assert!(w.chunks().is_empty());
    let rebuilt = w.recenter(0, |i| Built { chunk: i, tag: 1 });
    assert_eq!(rebuilt, WINDOW_LEN);
    assert_eq!(w.indices(), &[-1, 0, 1, 2, 3, 4, 5, 6]);
    assert!(w.chunks().iter().zip(w.indices()).all(|(c, &i)| c.chunk == i && c.tag == 1));
}

#[test]
fn chunk_window_same_anchor_is_a_no_op() {
    let mut w: ChunkWindow<Built> = ChunkWindow::new();
    w.recenter(3, |i| Built { chunk: i, tag: 1 });
    let rebuilt = w.recenter(3, |i| Built { chunk: i, tag: 2 });
    assert_eq!(rebuilt, 0);
    assert!(w.chunks().iter().all(|c| c.tag == 1));
}

#[test]
fn chunk_window_forward_crossing_keeps_seven_and_builds_one() {
    let mut w: ChunkWindow<Built> = ChunkWindow::new();
    w.recenter(0, |i| Built { chunk: i, tag: 1 });
    let rebuilt = w.recenter(1, |i| Built { chunk: i, tag: 2 });
    assert_eq!(rebuilt, 1);
    assert_eq!(w.indices(), &[0, 1, 2, 3, 4, 5, 6, 7]);
    let tags: Vec<u32> = w.chunks().iter().map(|c| c.tag).collect();
    assert_eq!(tags, vec![1, 1, 1, 1, 1, 1, 1, 2]);
}

#[test]
fn chunk_window_backward_crossing_stays_ascending() {
    let mut w: ChunkWindow<Built> = ChunkWindow::new();
    w.recenter(5, |i| Built { chunk: i, tag: 1 });
    let rebuilt = w.recenter(4, |i| Built { chunk: i, tag: 2 });
    assert_eq!(rebuilt, 1);
    assert_eq!(w.indices(), &[3, 4, 5, 6, 7, 8, 9, 10]);
    let tags: Vec<u32> = w.chunks().iter().map(|c| c.tag).collect();
    assert_eq!(tags, vec![2, 1, 1, 1, 1, 1, 1, 1]);
    assert!(w.chunks().iter().zip(w.indices()).all(|(c, &i)| c.chunk == i));
    // Crossing forward again rebuilds only the one chunk that left.
    assert_eq!(w.recenter(5, |i| Built { chunk: i, tag: 3 }), 1);
    assert_eq!(w.indices(), &[4, 5, 6, 7, 8, 9, 10, 11]);
}

#[test]
fn chunk_window_teleport_keeps_the_overlap() {
    let mut w: ChunkWindow<Built> = ChunkWindow::new();
    w.recenter(0, |i| Built { chunk: i, tag: 1 });
    assert_eq!(w.recenter(4, |i| Built { chunk: i, tag: 2 }), 4);
    assert_eq!(w.indices(), &[3, 4, 5, 6, 7, 8, 9, 10]);
    let tags: Vec<u32> = w.chunks().iter().map(|c| c.tag).collect();
    assert_eq!(tags, vec![1, 1, 1, 1, 2, 2, 2, 2]);
    assert_eq!(w.recenter(100, |i| Built { chunk: i, tag: 3 }), WINDOW_LEN);
    assert_eq!(w.indices(), &[99, 100, 101, 102, 103, 104, 105, 106]);
}
