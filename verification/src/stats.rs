use vstd::prelude::*;

verus! {

/// A pair of cumulative port counters as read at one instant.
#[derive(Clone, Copy, PartialEq, Eq, Structural, Debug)]
pub struct CounterSnapshot {
    pub rx: u64,
    pub tx: u64,
}

/// One interval report line's fields, in output order: elapsed seconds,
/// the reporting core, the receive and transmit deltas over the
/// interval, and the loop iterations it took.
#[derive(Clone, Copy, PartialEq, Eq, Structural, Debug)]
pub struct Report {
    pub elapsed: u64,
    pub core: u32,
    pub rx_delta: u64,
    pub tx_delta: u64,
    pub loops: u64,
}

/// The difference of two cumulative counter readings, the later one
/// first: exactly (r1 - r0, t1 - t0).
pub fn counter_delta(current: CounterSnapshot, previous: CounterSnapshot) -> (d: (u64, u64))
    requires
        current.rx >= previous.rx,
        current.tx >= previous.tx,
    ensures
        d.0 == current.rx - previous.rx,
        d.1 == current.tx - previous.tx,
{
    (current.rx - previous.rx, current.tx - previous.tx)
}

/// Per-core interval statistics: the counter snapshot and the second at
/// which the last report was cut, and a rolling count of loop
/// iterations since then.
pub struct Reporter {
    core: u32,
    prev: CounterSnapshot,
    last_report: u64,
    cycles: u64,
}

impl Reporter {
    pub closed spec fn spec_core(&self) -> u32 {
        self.core
    }

    pub closed spec fn spec_prev(&self) -> CounterSnapshot {
        self.prev
    }

    pub closed spec fn spec_last_report(&self) -> u64 {
        self.last_report
    }

    pub closed spec fn spec_cycles(&self) -> u64 {
        self.cycles
    }

    /// A fresh reporter for one core, baselined at the loop's start.
    pub fn new(core: u32, start_seconds: u64) -> (r: Reporter)
        ensures
            r.spec_core() == core,
            r.spec_prev() == (CounterSnapshot { rx: 0, tx: 0 }),
            r.spec_last_report() == start_seconds,
            r.spec_cycles() == 0,
    {
        Reporter { core, prev: CounterSnapshot { rx: 0, tx: 0 }, last_report: start_seconds, cycles: 0 }
    }

    /// Accounts one loop iteration and, when at least one whole second
    /// has passed since the last report, cuts a report: the deltas are
    /// exactly the current cumulative counters minus the snapshot taken
    /// at the previous report, and the snapshot, baseline and iteration
    /// count are reset. Otherwise only the iteration count moves.
    pub fn tick(&mut self, now_seconds: u64, current: CounterSnapshot) -> (r: Option<Report>)
        requires
            current.rx >= old(self).spec_prev().rx,
            current.tx >= old(self).spec_prev().tx,
        ensures
            final(self).spec_core() == old(self).spec_core(),
            now_seconds > old(self).spec_last_report() ==> {
                &&& r == Some(Report {
                    elapsed: (now_seconds - old(self).spec_last_report()) as u64,
                    core: old(self).spec_core(),
                    rx_delta: (current.rx - old(self).spec_prev().rx) as u64,
                    tx_delta: (current.tx - old(self).spec_prev().tx) as u64,
                    loops: spec_inc64(old(self).spec_cycles()),
                })
                &&& final(self).spec_prev() == current
                &&& final(self).spec_last_report() == now_seconds
                &&& final(self).spec_cycles() == 0
            },
            now_seconds <= old(self).spec_last_report() ==> {
                &&& r is None
                &&& final(self).spec_prev() == old(self).spec_prev()
                &&& final(self).spec_last_report() == old(self).spec_last_report()
                &&& final(self).spec_cycles() == spec_inc64(old(self).spec_cycles())
            },
    {
        let cycles_now = if self.cycles < u64::MAX {
            self.cycles + 1
        } else {
            self.cycles
        };
        if now_seconds > self.last_report {
            let (rx_delta, tx_delta) = counter_delta(current, self.prev);
            let report = Report {
                elapsed: now_seconds - self.last_report,
                core: self.core,
                rx_delta,
                tx_delta,
                loops: cycles_now,
            };
            self.prev = current;
            self.last_report = now_seconds;
            self.cycles = 0;
            Some(report)
        } else {
            self.cycles = cycles_now;
            None
        }
    }
}

/// A 64-bit event count advanced by one, held at its ceiling rather
/// than wrapping.
pub open spec fn spec_inc64(x: u64) -> u64 {
    if x < u64::MAX {
        (x + 1) as u64
    } else {
        x
    }
}

} // verus!
