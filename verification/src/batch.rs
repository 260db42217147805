use vstd::prelude::*;

use crate::mac::HeaderPredicate;
use crate::mac::HeaderTransform;
use crate::mac::MAC_HEADER_BYTES;
use crate::mac::MacSwap;
use crate::mac::SpecMacHeader;
use crate::mac::lemma_parse_store_header;
use crate::mac::lemma_store_own_header;
use crate::mac::read_header;
use crate::mac::spec_parse_header;
use crate::mac::spec_store_header;
use crate::mac::write_header;

verus! {

/// Mathematical model of one packet: its raw bytes and the liveness
/// flag the Filter and Parse stages use to exclude it without
/// reallocating the batch.
#[verifier::ext_equal]
pub struct SpecPacket {
    pub data: Seq<u8>,
    pub live: bool,
}

/// One received packet: the exclusively owned raw buffer plus the
/// liveness flag. A dead packet stays in its batch but is ignored by
/// every later stage and dropped by the Sink.
pub struct Packet {
    pub data: Vec<u8>,
    pub live: bool,
}

impl View for Packet {
    type V = SpecPacket;

    open spec fn view(&self) -> SpecPacket {
        SpecPacket { data: self.data@, live: self.live }
    }
}

/// An ordered run of packets processed together. Insertion order is
/// arrival order on the wire and is preserved by every stage.
pub struct Batch {
    pkts: Vec<Packet>,
}

impl View for Batch {
    type V = Seq<SpecPacket>;

    closed spec fn view(&self) -> Seq<SpecPacket> {
        self.pkts@.map_values(|p: Packet| p@)
    }
}

/// The frame `d` after one application of the transform `t` to its
/// header, in place: the first header bytes rewritten, the payload kept.
pub open spec fn spec_transform_frame<T: HeaderTransform>(t: T, d: Seq<u8>) -> Seq<u8> {
    spec_store_header(t.spec_apply(spec_parse_header(d)), d)
}

/// Mirroring a frame twice restores it exactly: the address swap is an
/// involution on whole frames, not only on headers.
pub proof fn lemma_mirror_frame_involution(d: Seq<u8>)
    requires
        d.len() >= 14,
    ensures
        spec_transform_frame(MacSwap, spec_transform_frame(MacSwap, d)) == d,
{
    let h = spec_parse_header(d);
    assert(h.wf());
    lemma_parse_store_header(MacSwap.spec_apply(h), d);
    assert(spec_store_header(h, spec_store_header(MacSwap.spec_apply(h), d)) =~= spec_store_header(
        h,
        d,
    ));
    lemma_store_own_header(d);
}

/// The frames of the live packets of `b`, in batch order: what a Sink
/// hands to the transmit queue.
pub open spec fn live_frames(b: Seq<SpecPacket>) -> Seq<Seq<u8>>
    decreases b.len(),
{
    if b.len() == 0 {
        Seq::empty()
    } else {
        let rest = live_frames(b.drop_last());
        if b.last().live {
            rest.push(b.last().data)
        } else {
            rest
        }
    }
}

impl Batch {
    /// Every live packet is long enough to carry a MAC header: the state
    /// the Parse stage establishes and later stages rely on.
    pub open spec fn parsed(self) -> bool {
        forall|i: int| 0 <= i < self@.len() ==> self@[i].live ==> self@[i].data.len() >= 14
    }

    /// A fresh, empty batch: the normal outcome of a Source that found
    /// no packets ready.
    pub fn empty() -> (b: Batch)
        ensures
            b@ =~= Seq::<SpecPacket>::empty(),
    {
        Batch { pkts: Vec::new() }
    }

    /// Appends one freshly arrived frame as a live packet.
    pub fn push_frame(&mut self, data: Vec<u8>)
        ensures
            final(self)@ =~= old(self)@.push(SpecPacket { data: data@, live: true }),
    {
        self.pkts.push(Packet { data, live: true });
    }

    pub fn len(&self) -> (n: usize)
        ensures
            n == self@.len(),
    {
        self.pkts.len()
    }

    pub fn is_live(&self, i: usize) -> (r: bool)
        requires
            i < self@.len(),
        ensures
            r == self@[i as int].live,
    {
        self.pkts[i].live
    }

    pub fn frame(&self, i: usize) -> (d: &Vec<u8>)
        requires
            i < self@.len(),
        ensures
            d@ == self@[i as int].data,
    {
        &self.pkts[i].data
    }

    /// The Parse stage: binds a MAC header view onto every packet.
    /// A packet shorter than the header is marked dead rather than
    /// aborting the batch; everything else is untouched.
    pub fn parse_stage(&mut self)
        ensures
            final(self)@.len() == old(self)@.len(),
            forall|i: int| 0 <= i < old(self)@.len() ==> final(self)@[i] == (SpecPacket {
                data: old(self)@[i].data,
                live: old(self)@[i].live && old(self)@[i].data.len() >= 14,
            }),
            final(self).parsed(),
    {
        let n = self.pkts.len();
        let mut i: usize = 0;
        while i < n
            invariant
                n == self.pkts.len() == old(self).pkts@.len(),
                i <= n,
                forall|j: int| 0 <= j < i ==> self.pkts@[j]@ == (SpecPacket {
                    data: old(self).pkts@[j]@.data,
                    live: old(self).pkts@[j]@.live && old(self).pkts@[j]@.data.len() >= 14,
                }),
                forall|j: int| i <= j < n ==> self.pkts@[j] == old(self).pkts@[j],
            decreases n - i,
        {
            let ghost v0 = self.pkts@;
            let mut p = self.pkts.remove(i);
            if p.data.len() < MAC_HEADER_BYTES {
                p.live = false;
            }
            self.pkts.insert(i, p);
            proof {
                assert(self.pkts@ =~= v0.update(i as int, self.pkts@[i as int]));
            }
            i = i + 1;
        }
    }

    /// The Transform stage: applies `t` in place to every live packet's
    /// bound header. Dead packets are untouched.
    pub fn transform_stage<T: HeaderTransform>(&mut self, t: &T)
        requires
            old(self).parsed(),
        ensures
            final(self)@.len() == old(self)@.len(),
            forall|i: int| 0 <= i < old(self)@.len() ==> final(self)@[i] == (SpecPacket {
                data: if old(self)@[i].live {
                    spec_transform_frame(*t, old(self)@[i].data)
                } else {
                    old(self)@[i].data
                },
                live: old(self)@[i].live,
            }),
            final(self).parsed(),
    {
        let n = self.pkts.len();
        let mut i: usize = 0;
        while i < n
            invariant
                n == self.pkts.len() == old(self).pkts@.len(),
                i <= n,
                old(self).parsed(),
                forall|j: int| 0 <= j < i ==> self.pkts@[j]@ == (SpecPacket {
                    data: if old(self).pkts@[j]@.live {
                        spec_transform_frame(*t, old(self).pkts@[j]@.data)
                    } else {
                        old(self).pkts@[j]@.data
                    },
                    live: old(self).pkts@[j]@.live,
                }),
                forall|j: int| 0 <= j < i ==> self.pkts@[j]@.live
                    ==> self.pkts@[j]@.data.len() >= 14,
                forall|j: int| i <= j < n ==> self.pkts@[j] == old(self).pkts@[j],
            decreases n - i,
        {
            let ghost v0 = self.pkts@;
            let mut p = self.pkts.remove(i);
            proof {
                assert(p@ == old(self)@[i as int]);
            }
            if p.live {
                let ghost d0 = p.data@;
                let mut h = read_header(&p.data);
                t.apply(&mut h);
                proof {
                    t.spec_apply_wf(spec_parse_header(d0));
                    lemma_parse_store_header(t.spec_apply(spec_parse_header(d0)), d0);
                }
                write_header(&mut p.data, &h);
            }
            self.pkts.insert(i, p);
            proof {
                assert(self.pkts@ =~= v0.update(i as int, self.pkts@[i as int]));
            }
            i = i + 1;
        }
    }

    /// The Filter stage: tests `f` on every live packet's header and
    /// marks the packet dead where the predicate refuses it. Buffers
    /// are kept so the completion path can still release them.
    pub fn filter_stage<F: HeaderPredicate>(&mut self, f: &F)
        requires
            old(self).parsed(),
        ensures
            final(self)@.len() == old(self)@.len(),
            forall|i: int| 0 <= i < old(self)@.len() ==> final(self)@[i] == (SpecPacket {
                data: old(self)@[i].data,
                live: old(self)@[i].live && f.spec_test(spec_parse_header(old(self)@[i].data)),
            }),
            final(self).parsed(),
    {
        let n = self.pkts.len();
        let mut i: usize = 0;
        while i < n
            invariant
                n == self.pkts.len() == old(self).pkts@.len(),
                i <= n,
                old(self).parsed(),
                forall|j: int| 0 <= j < i ==> self.pkts@[j]@ == (SpecPacket {
                    data: old(self).pkts@[j]@.data,
                    live: old(self).pkts@[j]@.live
                        && f.spec_test(spec_parse_header(old(self).pkts@[j]@.data)),
                }),
                forall|j: int| 0 <= j < i ==> self.pkts@[j]@.live
                    ==> self.pkts@[j]@.data.len() >= 14,
                forall|j: int| i <= j < n ==> self.pkts@[j] == old(self).pkts@[j],
            decreases n - i,
        {
            let ghost v0 = self.pkts@;
            let mut p = self.pkts.remove(i);
            proof {
                assert(p@ == old(self)@[i as int]);
            }
            if p.live {
                let h = read_header(&p.data);
                let keep = f.test(&h);
                if !keep {
                    p.live = false;
                }
            }
            self.pkts.insert(i, p);
            proof {
                assert(self.pkts@ =~= v0.update(i as int, self.pkts@[i as int]));
            }
            i = i + 1;
        }
    }
}

} // verus!
