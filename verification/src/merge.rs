use vstd::prelude::*;

use crate::pipeline::Runnable;

verus! {

/// A cumulative count clamped to what a 64-bit counter can carry.
pub open spec fn sat64(x: nat) -> nat {
    if x <= u64::MAX {
        x
    } else {
        u64::MAX as nat
    }
}

/// Sum of the units' cumulative receive counters.
pub open spec fn spec_rx_sum<R: Runnable>(units: Seq<R>) -> nat
    decreases units.len(),
{
    if units.len() == 0 {
        0
    } else {
        spec_rx_sum(units.drop_last()) + units.last().rx_total()
    }
}

/// Sum of the units' cumulative transmit counters.
pub open spec fn spec_tx_sum<R: Runnable>(units: Seq<R>) -> nat
    decreases units.len(),
{
    if units.len() == 0 {
        0
    } else {
        spec_tx_sum(units.drop_last()) + units.last().tx_total()
    }
}

/// Counter sums only grow when every unit's counter only grows.
pub proof fn lemma_sums_monotone<R: Runnable>(a: Seq<R>, b: Seq<R>)
    requires
        a.len() == b.len(),
        forall|i: int| 0 <= i < a.len() ==> a[i].rx_total() <= b[i].rx_total(),
        forall|i: int| 0 <= i < a.len() ==> a[i].tx_total() <= b[i].tx_total(),
    ensures
        spec_rx_sum(a) <= spec_rx_sum(b),
        spec_tx_sum(a) <= spec_tx_sum(b),
    decreases a.len(),
{
    if a.len() > 0 {
        lemma_sums_monotone(a.drop_last(), b.drop_last());
        assert(a.last() == a[a.len() - 1]);
        assert(b.last() == b[a.len() - 1]);
    }
}

/// N independent pipelines merged into one runnable unit for a core.
/// One full `process` drives every constituent exactly once, in a fixed
/// round-robin order; `step` drives just the next constituent in that
/// order. It is not a load balancer: each constituent keeps its own
/// Source and Sink.
pub struct Merged<R: Runnable> {
    units: Vec<R>,
    cursor: usize,
    rounds: Ghost<nat>,
}

impl<R: Runnable> Merged<R> {
    pub closed spec fn spec_units(&self) -> Seq<R> {
        self.units@
    }

    /// Index of the next constituent `step` will drive.
    pub closed spec fn spec_cursor(&self) -> nat {
        self.cursor as nat
    }

    /// Completed round-robin rounds.
    pub closed spec fn spec_rounds(&self) -> nat {
        self.rounds@
    }

    /// The merge invariant: every constituent is well formed, and
    /// service is round-robin fair — the units before the cursor have
    /// been polled exactly once more than the units after it.
    pub open spec fn wf(&self) -> bool {
        &&& forall|i: int| 0 <= i < self.spec_units().len() ==> self.spec_units()[i].inv()
        &&& (self.spec_units().len() > 0 ==> self.spec_cursor() < self.spec_units().len())
        &&& (self.spec_units().len() == 0 ==> self.spec_cursor() == 0)
        &&& forall|i: int|
            0 <= i < self.spec_units().len() ==> self.spec_units()[i].source_calls()
                == self.spec_rounds() + (if i < self.spec_cursor() {
                1nat
            } else {
                0nat
            })
    }

    /// Combines freshly built pipelines into one runnable unit.
    pub fn merge(units: Vec<R>) -> (m: Merged<R>)
        requires
            forall|i: int| 0 <= i < units@.len() ==> units@[i].inv(),
            forall|i: int| 0 <= i < units@.len() ==> units@[i].source_calls() == 0,
        ensures
            m.wf(),
            m.spec_units() == units@,
            m.spec_cursor() == 0,
            m.spec_rounds() == 0,
    {
        Merged { units, cursor: 0, rounds: Ghost(0) }
    }

    pub fn len(&self) -> (n: usize)
        ensures
            n == self.spec_units().len(),
    {
        self.units.len()
    }

    /// Drives the next constituent in round-robin order and advances
    /// the cursor.
    pub fn step(&mut self)
        requires
            old(self).wf(),
            old(self).spec_units().len() > 0,
        ensures
            final(self).wf(),
            final(self).spec_units().len() == old(self).spec_units().len(),
            final(self).spec_units()[old(self).spec_cursor() as int].source_calls()
                == old(self).spec_units()[old(self).spec_cursor() as int].source_calls() + 1,
            final(self).spec_units()[old(self).spec_cursor() as int].rx_total()
                >= old(self).spec_units()[old(self).spec_cursor() as int].rx_total(),
            final(self).spec_units()[old(self).spec_cursor() as int].tx_total()
                >= old(self).spec_units()[old(self).spec_cursor() as int].tx_total(),
            forall|i: int|
                0 <= i < old(self).spec_units().len() && i != old(self).spec_cursor()
                    ==> final(self).spec_units()[i] == old(self).spec_units()[i],
            final(self).spec_cursor()
                == (if old(self).spec_cursor() + 1 == old(self).spec_units().len() {
                0nat
            } else {
                old(self).spec_cursor() + 1
            }),
            final(self).spec_rounds()
                == (if old(self).spec_cursor() + 1 == old(self).spec_units().len() {
                old(self).spec_rounds() + 1
            } else {
                old(self).spec_rounds()
            }),
    {
        let c = self.cursor;
        let n = self.units.len();
        let ghost v0 = self.units@;
        let mut u = self.units.remove(c);
        u.process();
        self.units.insert(c, u);
        proof {
            assert(self.units@ =~= v0.update(c as int, self.units@[c as int]));
        }
        if c + 1 == n {
            self.cursor = 0;
            proof {
                self.rounds@ = self.rounds@ + 1;
            }
        } else {
            self.cursor = c + 1;
        }
    }

    /// The merged unit's single entry point: drives every constituent
    /// pipeline exactly once, in round-robin order.
    pub fn process(&mut self)
        requires
            old(self).wf(),
            old(self).spec_cursor() == 0,
        ensures
            final(self).wf(),
            final(self).spec_cursor() == 0,
            final(self).spec_units().len() == old(self).spec_units().len(),
            forall|i: int|
                0 <= i < old(self).spec_units().len() ==> final(self).spec_units()[i].source_calls()
                    == old(self).spec_units()[i].source_calls() + 1,
            forall|i: int|
                0 <= i < old(self).spec_units().len() ==> final(self).spec_units()[i].rx_total()
                    >= old(self).spec_units()[i].rx_total(),
            forall|i: int|
                0 <= i < old(self).spec_units().len() ==> final(self).spec_units()[i].tx_total()
                    >= old(self).spec_units()[i].tx_total(),
    {
        let n = self.units.len();
        let mut k: usize = 0;
        while k < n
            invariant
                n == self.spec_units().len(),
                k <= n,
                self.wf(),
                self.spec_cursor() == (if k < n {
                    k as nat
                } else {
                    0nat
                }),
                forall|i: int|
                    0 <= i < k ==> self.spec_units()[i].source_calls()
                        == old(self).spec_units()[i].source_calls() + 1,
                forall|i: int|
                    0 <= i < k ==> self.spec_units()[i].rx_total()
                        >= old(self).spec_units()[i].rx_total(),
                forall|i: int|
                    0 <= i < k ==> self.spec_units()[i].tx_total()
                        >= old(self).spec_units()[i].tx_total(),
                forall|i: int| k <= i < n ==> self.spec_units()[i] == old(self).spec_units()[i],
            decreases n - k,
        {
            self.step();
            k = k + 1;
        }
    }

    /// Read access to one constituent, for observation.
    pub fn unit(&self, i: usize) -> (u: &R)
        requires
            i < self.spec_units().len(),
        ensures
            *u == self.spec_units()[i as int],
    {
        &self.units[i]
    }

    /// Reads the summed cumulative counters of all constituents, each
    /// sum clamped to 64 bits.
    pub fn stats(&self) -> (r: (u64, u64))
        requires
            self.wf(),
        ensures
            r.0 == sat64(spec_rx_sum(self.spec_units())),
            r.1 == sat64(spec_tx_sum(self.spec_units())),
    {
        let n = self.units.len();
        let mut rx: u64 = 0;
        let mut tx: u64 = 0;
        let mut i: usize = 0;
        while i < n
            invariant
                n == self.spec_units().len(),
                i <= n,
                self.wf(),
                rx == sat64(spec_rx_sum(self.spec_units().take(i as int))),
                tx == sat64(spec_tx_sum(self.spec_units().take(i as int))),
            decreases n - i,
        {
            proof {
                assert(self.spec_units().take(i as int + 1).drop_last() =~= self.spec_units().take(
                    i as int,
                ));
                assert(self.spec_units().take(i as int + 1).last() == self.spec_units()[i as int]);
            }
            let (u_rx, u_tx) = self.units[i].stats();
            rx = if rx <= u64::MAX - u_rx {
                rx + u_rx
            } else {
                u64::MAX
            };
            tx = if tx <= u64::MAX - u_tx {
                tx + u_tx
            } else {
                u64::MAX
            };
            i = i + 1;
        }
        proof {
            assert(self.spec_units().take(n as int) =~= self.spec_units());
        }
        (rx, tx)
    }
}

/// Round-robin fairness: in every reachable state of a merged set, the
/// numbers of Source polls two constituents have received differ by at
/// most one.
pub proof fn lemma_merge_fair<R: Runnable>(m: &Merged<R>, i: int, j: int)
    requires
        m.wf(),
        0 <= i < m.spec_units().len(),
        0 <= j < m.spec_units().len(),
    ensures
        m.spec_units()[i].source_calls() <= m.spec_units()[j].source_calls() + 1,
{
}

} // verus!
