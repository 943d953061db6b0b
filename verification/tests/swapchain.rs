use lane_lunacy::render::frame_builder::world_totals;
use lane_lunacy::render::swapchain::{AcquireAction, AcquireOutcome, FlushOutcome, SwapchainStatus};

#[test]
fn fresh_swapchain_draws_without_recreating() {
    let mut s = SwapchainStatus::new();
    assert!(!s.begin_frame());
    assert_eq!(s.on_acquire(AcquireOutcome::Acquired { suboptimal: false }), AcquireAction::Draw);
    assert!(s.on_flush(FlushOutcome::Flushed));
    assert!(!s.begin_frame());
}

#[test]
fn out_of_date_acquire_skips_and_recreates_next_frame() {
    let mut s = SwapchainStatus::new();
    s.begin_frame();
    assert_eq!(s.on_acquire(AcquireOutcome::OutOfDate), AcquireAction::Skip);
    assert!(s.recreate);
    assert!(s.begin_frame());
    assert!(!s.recreate);
}

#[test]
fn suboptimal_image_is_drawn_then_recreated() {
    let mut s = SwapchainStatus::new();
    s.begin_frame();
    assert_eq!(s.on_acquire(AcquireOutcome::Acquired { suboptimal: true }), AcquireAction::Draw);
    assert!(s.on_flush(FlushOutcome::Flushed));
    assert!(s.begin_frame());
}

#[test]
fn out_of_date_present_drops_the_fence_and_recreates() {
    let mut s = SwapchainStatus::new();
    s.begin_frame();
    s.on_acquire(AcquireOutcome::Acquired { suboptimal: false });
    assert!(!s.on_flush(FlushOutcome::OutOfDate));
    assert!(s.begin_frame());
}

#[test]
fn other_errors_abort_or_drop_the_fence() {
    let mut s = SwapchainStatus::new();
    assert_eq!(s.on_acquire(AcquireOutcome::Failed), AcquireAction::Abort);
    assert!(!s.recreate);
    assert!(!s.on_flush(FlushOutcome::Failed));
    assert!(!s.recreate);
}

#[test]
fn world_totals_sum_vertices_and_thirds_of_indices() {
    assert_eq!(world_totals(&[]), (0, 0));
    assert_eq!(world_totals(&[(100, 300), (50, 151), (7, 2)]), (157, 150));
}
