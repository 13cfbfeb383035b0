//! Display frame-rate accounting.
//!
//! The counter tallies displayed frames and, once a reporting window of
//! five seconds has elapsed, hands the tally back and starts a fresh
//! window. Reading the clock happens outside this crate; the caller passes
//! the elapsed time in.

use vstd::prelude::*;

verus! {

/// Milliseconds a reporting window lasts.
pub const FPS_REPORT_WINDOW_MS: u64 = 5000;

/// Frame tally for the current reporting window.
pub struct FpsCounter {
    /// Frames displayed since the window started.
    pub frame_count: u64,
}

impl FpsCounter {
    /// A counter with an empty window.
    pub fn new() -> (c: FpsCounter)
        ensures
            c.frame_count == 0,
    {
        FpsCounter { frame_count: 0 }
    }

    /// Count one displayed frame. When the reporting window has elapsed,
    /// the tally (this frame included) is returned and the window starts
    /// over; otherwise the tally just grows.
    pub fn tick(&mut self, elapsed_ms: u64) -> (report: Option<u64>)
        requires
            old(self).frame_count < u64::MAX,
        ensures
            elapsed_ms >= FPS_REPORT_WINDOW_MS ==> {
                &&& report == Some((old(self).frame_count + 1) as u64)
                &&& final(self).frame_count == 0
            },
            elapsed_ms < FPS_REPORT_WINDOW_MS ==> {
                &&& report is None
                &&& final(self).frame_count == old(self).frame_count + 1
            },
    {
        self.frame_count = self.frame_count + 1;
        if elapsed_ms >= FPS_REPORT_WINDOW_MS {
            let tally = self.frame_count;
            self.frame_count = 0;
            Some(tally)
        } else {
            None
        }
    }
}

} // verus!
