//! The scripted driver of the headless driving benchmark.
//!
//! The benchmark runs the simulation at a fixed 60 Hz with full throttle and
//! straight steering, shifting up every half second during the first four
//! seconds, and prints a status line every five seconds.
use vstd::prelude::*;

verus! {

/// Simulation steps per second of the benchmark.
pub const DRIVE_HZ: usize = 60;

/// The scripted driver shifts up on this frame of the run.
pub open spec fn spec_drive_gear_up(frame: usize) -> bool {
    frame % 30 == 0 && frame < 240
}

/// Whether the scripted driver shifts up on frame `frame`.
pub fn drive_gear_up(frame: usize) -> (up: bool)
    ensures
        up == spec_drive_gear_up(frame),
{
    frame % 30 == 0 && frame < 240
}

/// Whether the benchmark prints its periodic status line on frame `frame`.
pub fn drive_status_due(frame: usize) -> (due: bool)
    ensures
        due == (frame % 300 == 0),
{
    frame % 300 == 0
}

/// The number of upshifts the scripted driver requests in its first `n`
/// frames.
pub open spec fn upshifts_before(n: nat) -> nat
    decreases n,
{
    if n == 0 {
        0
    } else {
        upshifts_before((n - 1) as nat) + if spec_drive_gear_up((n - 1) as usize) {
            1nat
        } else {
            0nat
        }
    }
}

/// In its first `n` frames the scripted driver shifts up once every thirty
/// frames, starting on the first frame, and never more than eight times.
pub proof fn law_drive_upshift_count(n: nat)
    requires
        n <= usize::MAX,
    ensures
        upshifts_before(n) == if n >= 240 { 8 } else { ((n + 29) / 30) as nat },
    decreases n,
{
    if n > 0 {
        law_drive_upshift_count((n - 1) as nat);
    }
}

} // verus!
