//! The live view: the fixed numbers of its window and event loop, and the
//! cadence of its frame-rate report.

use vstd::prelude::*;

verus! {

/// Width and height of the window when it opens, in pixels.
pub const WINDOW_SIDE: u32 = 600;

/// Updates per second of the event loop.
pub const UPDATE_RATE: u64 = 60;

/// Frames per second that the event loop draws at most.
pub const FRAME_RATE: u64 = 60;

/// Number of updates from one frame-rate report to the next.
pub const REPORT_INTERVAL: u32 = 10;

/// Counts updates and tells which of them is to measure and report the frame
/// rate: the first one, and every tenth one after it.
pub struct FpsCounter {
    since_report: u32,
}

impl FpsCounter {
    #[verifier::type_invariant]
    spec fn in_interval(&self) -> bool {
        self.since_report < REPORT_INTERVAL
    }

    /// Number of updates seen since the last one that reported.
    /// It is zero exactly when the next update reports.
    pub closed spec fn phase(&self) -> nat {
        self.since_report as nat
    }

    /// A counter whose first update reports.
    pub fn new() -> (counter: FpsCounter)
        ensures
            counter.phase() == 0,
    {
        FpsCounter { since_report: 0 }
    }

    /// Number of updates seen since the last one that reported.
    pub fn updates_since_report(&self) -> (n: u32)
        ensures
            n == self.phase(),
            n < REPORT_INTERVAL,
    {
        proof {
            use_type_invariant(self);
        }
        self.since_report
    }

    /// Registers one update. The result says whether this update is to
    /// measure the time since the last report and print the rate.
    pub fn tick(&mut self) -> (report: bool)
        ensures
            report == (old(self).phase() == 0),
            final(self).phase() == (old(self).phase() + 1) % (REPORT_INTERVAL as nat),
    {
        proof {
            use_type_invariant(&*self);
        }
        let report = self.since_report == 0;
        if self.since_report + 1 == REPORT_INTERVAL {
            self.since_report = 0;
        } else {
            self.since_report = self.since_report + 1;
        }
        report
    }
}

/// Phase of a counter that started at phase `start` and has seen `updates`
/// further updates.
pub open spec fn phase_after(start: nat, updates: nat) -> nat
    decreases updates,
{
    if updates == 0 {
        start
    } else {
        (phase_after(start, (updates - 1) as nat) + 1) % (REPORT_INTERVAL as nat)
    }
}

/// Counting updates from a fresh counter, update number `k` (the first being
/// number zero) reports exactly when `k` is a multiple of the report interval.
pub proof fn lemma_reports_every_interval(k: nat)
    ensures
        phase_after(0, k) == k % (REPORT_INTERVAL as nat),
        (phase_after(0, k) == 0) == (k % (REPORT_INTERVAL as nat) == 0),
    decreases k,
{
    if k > 0 {
        lemma_reports_every_interval((k - 1) as nat);
    }
}

} // verus!
