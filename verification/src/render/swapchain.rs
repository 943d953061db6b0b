//! The presenter's swapchain bookkeeping: when the swapchain must be
//! recreated, and what a frame does with the outcome of acquiring an image and
//! of flushing its work to the present queue.
//!
//! The device calls themselves stay with the caller; it reports each outcome
//! here and performs the action it gets back.
use vstd::prelude::*;

verus! {

/// What acquiring the next swapchain image gave.
#[derive(Clone, Copy, Debug, PartialEq, Eq, Structural)]
pub enum AcquireOutcome {
    /// An image was acquired; `suboptimal` when the swapchain no longer
    /// matches the surface exactly but can still be presented to.
    Acquired { suboptimal: bool },
    /// The swapchain is out of date and cannot be presented to.
    OutOfDate,
    /// Any other acquire error.
    Failed,
}

/// What the frame does after acquiring.
#[derive(Clone, Copy, Debug, PartialEq, Eq, Structural)]
pub enum AcquireAction {
    /// Record, submit and present this frame.
    Draw,
    /// Skip this frame; the swapchain is recreated at the start of the next.
    Skip,
    /// An unrecoverable device error: stop.
    Abort,
}

/// What flushing the frame's work and present gave.
#[derive(Clone, Copy, Debug, PartialEq, Eq, Structural)]
pub enum FlushOutcome {
    /// The work was submitted; its fence guards the image from now on.
    Flushed,
    /// The swapchain went out of date while presenting.
    OutOfDate,
    /// Any other flush error (reported, and the frame's fence is dropped).
    Failed,
}

/// Whether the swapchain must be recreated before the next image is acquired.
#[derive(Clone, Copy, Debug, PartialEq, Eq, Structural)]
pub struct SwapchainStatus {
    pub recreate: bool,
}

/// The recreate flag and the action after an acquire with `outcome`, starting
/// from the flag `recreate`.
pub open spec fn spec_after_acquire(recreate: bool, outcome: AcquireOutcome) -> (bool, AcquireAction) {
    match outcome {
        AcquireOutcome::Acquired { suboptimal } => (recreate || suboptimal, AcquireAction::Draw),
        AcquireOutcome::OutOfDate => (true, AcquireAction::Skip),
        AcquireOutcome::Failed => (recreate, AcquireAction::Abort),
    }
}

/// The recreate flag after a flush with `outcome`, and whether the frame's
/// fence is kept.
pub open spec fn spec_after_flush(recreate: bool, outcome: FlushOutcome) -> (bool, bool) {
    match outcome {
        FlushOutcome::Flushed => (recreate, true),
        FlushOutcome::OutOfDate => (true, false),
        FlushOutcome::Failed => (recreate, false),
    }
}

impl SwapchainStatus {
    /// A freshly created swapchain: nothing to recreate.
    pub fn new() -> (s: SwapchainStatus)
        ensures
            !s.recreate,
    {
        SwapchainStatus { recreate: false }
    }

    /// Start of a frame: returns whether the swapchain must be recreated now
    /// (before acquiring); once the caller has recreated it the flag is clear.
    pub fn begin_frame(&mut self) -> (recreate_now: bool)
        ensures
            recreate_now == old(self).recreate,
            !final(self).recreate,
    {
        let r = self.recreate;
        self.recreate = false;
        r
    }

    /// Reports the acquire outcome: an out-of-date swapchain skips the frame
    /// and is recreated next frame; a suboptimal image is still drawn, but the
    /// swapchain is recreated next frame; any other error aborts.
    pub fn on_acquire(&mut self, outcome: AcquireOutcome) -> (action: AcquireAction)
        ensures
            (final(self).recreate, action) == spec_after_acquire(old(self).recreate, outcome),
    {
        match outcome {
            AcquireOutcome::Acquired { suboptimal } => {
                if suboptimal {
                    self.recreate = true;
                }
                AcquireAction::Draw
            },
            AcquireOutcome::OutOfDate => {
                self.recreate = true;
                AcquireAction::Skip
            },
            AcquireOutcome::Failed => AcquireAction::Abort,
        }
    }

    /// Reports the flush outcome and returns whether the frame's fence is
    /// kept: an out-of-date swapchain is recreated next frame; on any error the
    /// fence is dropped.
    pub fn on_flush(&mut self, outcome: FlushOutcome) -> (keep_fence: bool)
        ensures
            (final(self).recreate, keep_fence) == spec_after_flush(old(self).recreate, outcome),
    {
        match outcome {
            FlushOutcome::Flushed => true,
            FlushOutcome::OutOfDate => {
                self.recreate = true;
                false
            },
            FlushOutcome::Failed => false,
        }
    }
}

/// Within one frame (which starts with the recreate flag clear): a skipped
/// frame and a drawn frame whose image was suboptimal or whose present found
/// the swapchain out of date both leave the flag set, so the next frame
/// recreates the swapchain first; a drawn frame that reported neither leaves it
/// clear.
pub proof fn law_stale_swapchain_recreated_next_frame(acquire: AcquireOutcome, flush: FlushOutcome)
    ensures
        ({
            let (after_acquire, action) = spec_after_acquire(false, acquire);
            let (after_flush, _) = spec_after_flush(after_acquire, flush);
            &&& action == AcquireAction::Skip ==> after_acquire
            &&& action == AcquireAction::Draw ==> (after_flush <==> (acquire == (
            AcquireOutcome::Acquired { suboptimal: true }) || flush == FlushOutcome::OutOfDate))
        }),
{
}

} // verus!
