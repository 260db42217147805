use vstd::prelude::*;

use crate::batch::Batch;
use crate::batch::SpecPacket;
use crate::batch::live_frames;

verus! {

/// Mathematical model of one queue pair: the full ordered log of frames
/// that have arrived, how many of them the Source has pulled so far,
/// and the ordered log of frames handed to the transmit side.
#[verifier::ext_equal]
pub struct SpecPort {
    pub arrivals: Seq<Seq<u8>>,
    pub consumed: nat,
    pub transmitted: Seq<Seq<u8>>,
}

impl SpecPort {
    pub open spec fn wf(self) -> bool {
        self.consumed <= self.arrivals.len()
    }

    /// Frames that have arrived and not yet been pulled by a Source.
    pub open spec fn pending(self) -> Seq<Seq<u8>> {
        self.arrivals.skip(self.consumed as int)
    }
}

/// One receive/transmit queue pair. Receive hands frames out in arrival
/// order; transmit records frames in the order they were handed in; the
/// cumulative counters never reset. The queue is in-memory: frames are
/// put on the receive side with `deliver`, as a poll-mode driver would.
pub struct Port {
    arrivals: Vec<Vec<u8>>,
    consumed: usize,
    transmitted: Vec<Vec<u8>>,
}

impl View for Port {
    type V = SpecPort;

    closed spec fn view(&self) -> SpecPort {
        SpecPort {
            arrivals: self.arrivals@.map_values(|v: Vec<u8>| v@),
            consumed: self.consumed as nat,
            transmitted: self.transmitted@.map_values(|v: Vec<u8>| v@),
        }
    }
}

/// An exact copy of a raw frame buffer.
fn clone_frame(v: &Vec<u8>) -> (r: Vec<u8>)
    ensures
        r@ == v@,
{
    let r = v.clone();
    proof {
        assert forall|i: int| 0 <= i < v@.len() implies r@[i] == v@[i] by {
            assert(vstd::pervasive::cloned::<u8>(v@[i], r@[i]));
        }
        assert(r@ =~= v@);
    }
    r
}

impl Port {
    /// A fresh queue pair with nothing arrived and nothing sent.
    pub fn new() -> (p: Port)
        ensures
            p@.wf(),
            p@.arrivals =~= Seq::<Seq<u8>>::empty(),
            p@.consumed == 0,
            p@.transmitted =~= Seq::<Seq<u8>>::empty(),
    {
        Port { arrivals: Vec::new(), consumed: 0, transmitted: Vec::new() }
    }

    /// Puts one frame on the receive queue, as the wire would.
    pub fn deliver(&mut self, frame: Vec<u8>)
        requires
            old(self)@.wf(),
        ensures
            final(self)@.wf(),
            final(self)@.arrivals =~= old(self)@.arrivals.push(frame@),
            final(self)@.consumed == old(self)@.consumed,
            final(self)@.transmitted == old(self)@.transmitted,
    {
        self.arrivals.push(frame);
        proof {
            assert(self@.arrivals =~= old(self)@.arrivals.push(self.arrivals@.last()@));
            assert(self@.transmitted =~= old(self)@.transmitted);
        }
    }

    /// The Source operation: pulls up to `max` pending frames, oldest
    /// first, into a fresh batch of live packets. An empty batch — not
    /// an error — is the outcome when nothing is pending.
    pub fn receive(&mut self, max: usize) -> (b: Batch)
        requires
            old(self)@.wf(),
        ensures
            final(self)@.wf(),
            final(self)@.arrivals == old(self)@.arrivals,
            final(self)@.transmitted == old(self)@.transmitted,
            final(self)@.consumed == old(self)@.consumed + b@.len(),
            b@.len() == if max <= old(self)@.pending().len() {
                max as nat
            } else {
                old(self)@.pending().len()
            },
            forall|i: int| 0 <= i < b@.len() ==> b@[i] == (SpecPacket {
                data: old(self)@.arrivals[old(self)@.consumed + i],
                live: true,
            }),
    {
        let mut b = Batch::empty();
        let mut taken: usize = 0;
        while taken < max && self.consumed < self.arrivals.len()
            invariant
                self@.wf(),
                taken <= max,
                self.consumed == old(self).consumed + taken,
                self.consumed <= self.arrivals.len(),
                self.arrivals@ == old(self).arrivals@,
                self.transmitted@ == old(self).transmitted@,
                b@.len() == taken,
                forall|i: int| 0 <= i < b@.len() ==> b@[i] == (SpecPacket {
                    data: old(self)@.arrivals[old(self)@.consumed + i],
                    live: true,
                }),
            decreases max - taken,
        {
            let frame = clone_frame(&self.arrivals[self.consumed]);
            proof {
                assert(frame@ == old(self)@.arrivals[self.consumed as int]);
            }
            b.push_frame(frame);
            self.consumed = self.consumed + 1;
            taken = taken + 1;
        }
        proof {
            if taken < max {
                assert(self.consumed == self.arrivals.len());
                assert(b@.len() == old(self)@.pending().len());
            } else {
                assert(b@.len() == max as nat);
            }
            assert(self@.arrivals =~= old(self)@.arrivals);
            assert(self@.transmitted =~= old(self)@.transmitted);
        }
        b
    }

    /// The Sink operation: hands every live packet of the batch to the
    /// transmit queue in batch order; dead packets are dropped without
    /// transmission, their buffers released with the batch.
    pub fn transmit(&mut self, b: Batch)
        requires
            old(self)@.wf(),
        ensures
            final(self)@.wf(),
            final(self)@.arrivals == old(self)@.arrivals,
            final(self)@.consumed == old(self)@.consumed,
            final(self)@.transmitted == old(self)@.transmitted + live_frames(b@),
    {
        let n = b.len();
        let mut i: usize = 0;
        while i < n
            invariant
                n == b@.len(),
                i <= n,
                self.arrivals@ == old(self).arrivals@,
                self.consumed == old(self).consumed,
                self@.transmitted =~= old(self)@.transmitted + live_frames(b@.take(i as int)),
            decreases n - i,
        {
            proof {
                assert(b@.take(i as int + 1).drop_last() =~= b@.take(i as int));
                assert(b@.take(i as int + 1).last() == b@[i as int]);
                if b@[i as int].live {
                    assert(live_frames(b@.take(i as int + 1))
                        == live_frames(b@.take(i as int)).push(b@[i as int].data));
                } else {
                    assert(live_frames(b@.take(i as int + 1)) == live_frames(b@.take(i as int)));
                }
            }
            if b.is_live(i) {
                let frame = clone_frame(b.frame(i));
                let ghost t_pre = self@.transmitted;
                self.transmitted.push(frame);
                proof {
                    assert(self@.transmitted =~= t_pre.push(b@[i as int].data));
                    assert(t_pre.push(b@[i as int].data) =~= old(self)@.transmitted
                        + live_frames(b@.take(i as int)).push(b@[i as int].data));
                }
            }
            i = i + 1;
            proof {
                assert(self@.transmitted =~= old(self)@.transmitted
                    + live_frames(b@.take(i as int)));
            }
        }
        proof {
            assert(b@.take(n as int) =~= b@);
            assert(self@.arrivals =~= old(self)@.arrivals);
        }
    }

    /// The cumulative counter read: frames received and frames
    /// transmitted since the port was created.
    pub fn stats(&self) -> (r: (u64, u64))
        ensures
            r.0 == self@.consumed,
            r.1 == self@.transmitted.len(),
    {
        (self.consumed as u64, self.transmitted.len() as u64)
    }

    pub fn transmitted_count(&self) -> (n: usize)
        ensures
            n == self@.transmitted.len(),
    {
        self.transmitted.len()
    }

    /// Read access to one transmitted frame, for observation.
    pub fn transmitted_frame(&self, i: usize) -> (d: &Vec<u8>)
        requires
            i < self@.transmitted.len(),
        ensures
            d@ == self@.transmitted[i as int],
    {
        &self.transmitted[i]
    }

    pub fn pending_count(&self) -> (n: usize)
        requires
            self@.wf(),
        ensures
            n == self@.pending().len(),
    {
        self.arrivals.len() - self.consumed
    }
}

} // verus!
