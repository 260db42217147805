use vstd::prelude::*;

use crate::merge::Merged;
use crate::merge::lemma_sums_monotone;
use crate::merge::sat64;
use crate::merge::spec_rx_sum;
use crate::merge::spec_tx_sum;
use crate::pipeline::Runnable;
use crate::stats::CounterSnapshot;
use crate::stats::Report;
use crate::stats::Reporter;
use crate::stats::spec_inc64;

verus! {

/// The per-core worker state: the merged pipelines the core owns and
/// the interval statistics over their ports. The owning thread drives
/// `iteration` forever; each call polls every pipeline once and, when a
/// whole second has elapsed, yields one report line's fields.
pub struct Worker<R: Runnable> {
    merged: Merged<R>,
    reporter: Reporter,
}

impl<R: Runnable> Worker<R> {
    pub closed spec fn spec_merged(&self) -> Merged<R> {
        self.merged
    }

    pub closed spec fn spec_reporter(&self) -> Reporter {
        self.reporter
    }

    /// The worker invariant: the merged unit is at a round boundary and
    /// well formed, and the reporter's snapshot never exceeds the
    /// ports' cumulative counters, so every delta is well defined.
    pub open spec fn wf(&self) -> bool {
        &&& self.spec_merged().wf()
        &&& self.spec_merged().spec_cursor() == 0
        &&& self.spec_reporter().spec_prev().rx <= sat64(
            spec_rx_sum(self.spec_merged().spec_units()),
        )
        &&& self.spec_reporter().spec_prev().tx <= sat64(
            spec_tx_sum(self.spec_merged().spec_units()),
        )
    }

    /// Binds merged pipelines to a core's loop, baselined at `start_seconds`.
    pub fn new(merged: Merged<R>, core: u32, start_seconds: u64) -> (w: Worker<R>)
        requires
            merged.wf(),
            merged.spec_cursor() == 0,
        ensures
            w.wf(),
            w.spec_merged() == merged,
            w.spec_reporter().spec_core() == core,
            w.spec_reporter().spec_last_report() == start_seconds,
            w.spec_reporter().spec_cycles() == 0,
    {
        Worker { merged, reporter: Reporter::new(core, start_seconds) }
    }

    /// One iteration of the polling loop: drive every pipeline once,
    /// then account the iteration. When at least one whole second has
    /// passed since the last report, the returned fields carry exactly
    /// the counter deltas accumulated over the interval; reporting
    /// happens inline and never skips a poll.
    pub fn iteration(&mut self, now_seconds: u64) -> (r: Option<Report>)
        requires
            old(self).wf(),
        ensures
            final(self).wf(),
            final(self).spec_merged().spec_units().len()
                == old(self).spec_merged().spec_units().len(),
            forall|i: int|
                0 <= i < old(self).spec_merged().spec_units().len()
                    ==> final(self).spec_merged().spec_units()[i].source_calls()
                    == old(self).spec_merged().spec_units()[i].source_calls() + 1,
            now_seconds > old(self).spec_reporter().spec_last_report() ==> r == Some(Report {
                elapsed: (now_seconds - old(self).spec_reporter().spec_last_report()) as u64,
                core: old(self).spec_reporter().spec_core(),
                rx_delta: (sat64(spec_rx_sum(final(self).spec_merged().spec_units()))
                    - old(self).spec_reporter().spec_prev().rx) as u64,
                tx_delta: (sat64(spec_tx_sum(final(self).spec_merged().spec_units()))
                    - old(self).spec_reporter().spec_prev().tx) as u64,
                loops: spec_inc64(old(self).spec_reporter().spec_cycles()),
            }),
            now_seconds <= old(self).spec_reporter().spec_last_report() ==> r is None,
    {
        let ghost units0 = self.merged.spec_units();
        self.merged.process();
        proof {
            lemma_sums_monotone(units0, self.merged.spec_units());
        }
        let (rx, tx) = self.merged.stats();
        let current = CounterSnapshot { rx, tx };
        self.reporter.tick(now_seconds, current)
    }

    /// Read access to the merged pipelines, for observation.
    pub fn merged(&self) -> (m: &Merged<R>)
        ensures
            *m == self.spec_merged(),
    {
        &self.merged
    }
}

} // verus!
