use lane_lunacy::render::chunk_cache::ChunkBook;

#[test]
fn requests_skip_committed_and_in_flight_chunks() {
    let mut book: ChunkBook<&'static str> = ChunkBook::new();
    assert_eq!(book.request(&[3, 4, 4, 5]), vec![3, 4, 5]);
    assert_eq!(book.pending_count(), 3);
    // already in flight: nothing new
    assert!(book.request(&[4, 5]).is_empty());
    book.commit(4, book.generation(), "four");
    assert_eq!(book.pending_count(), 2);
    assert_eq!(book.cached_count(), 1);
    // committed: not requested again
    assert_eq!(book.request(&[4, 6]), vec![6]);
    assert_eq!(book.missing(&[3, 4, 5, 6]), vec![3, 5, 6]);
    assert_eq!(book.take(4), Some("four"));
    assert_eq!(book.take(4), None);
    assert_eq!(book.missing(&[4]), vec![4]);
}

#[test]
fn reset_drops_everything_and_stale_builds() {
    let mut book: ChunkBook<u32> = ChunkBook::new();
    book.request(&[1, 2]);
    let old_gen = book.generation();
    book.commit(1, old_gen, 10);
    book.reset();
    assert_eq!(book.generation(), old_gen + 1);
    assert_eq!(book.cached_count(), 0);
    assert_eq!(book.pending_count(), 0);
    // a build queued before the reset finishes: dropped
    book.commit(2, old_gen, 20);
    assert_eq!(book.cached_count(), 0);
    book.insert_built(2, 21);
    assert_eq!(book.take(2), Some(21));
}

#[test]
fn eviction_keeps_only_the_margin_window() {
    let mut book: ChunkBook<i32> = ChunkBook::new();
    let g = book.generation();
    for i in -3..12 {
        book.request(&[i]);
        book.commit(i, g, i * 10);
    }
    book.evict_outside(0, 8);
    assert_eq!(book.cached_count(), 9);
    assert_eq!(book.missing(&[-1, 0, 8, 9]), vec![-1, 9]);
    assert_eq!(book.take(8), Some(80));
}
