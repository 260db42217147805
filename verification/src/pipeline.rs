use vstd::prelude::*;

use crate::batch::SpecPacket;
use crate::batch::live_frames;
use crate::batch::spec_transform_frame;
use crate::mac::AcceptAll;
use crate::mac::EthertypeIs;
use crate::mac::HeaderPredicate;
use crate::mac::HeaderTransform;
use crate::mac::MacSwap;
use crate::mac::lemma_parse_store_header;
use crate::mac::spec_parse_header;
use crate::port::Port;
use crate::port::SpecPort;

verus! {

/// Whether the stage chain keeps the frame `d`: it must be long enough
/// to parse, and its transformed header must pass the filter.
pub open spec fn spec_keeps<T: HeaderTransform, F: HeaderPredicate>(
    t: T,
    f: F,
    d: Seq<u8>,
) -> bool {
    d.len() >= 14 && f.spec_test(t.spec_apply(spec_parse_header(d)))
}

/// What one pass of Parse, Transform and Filter makes of a run of
/// frames: the kept frames, each with its header transformed, in their
/// arrival order.
pub open spec fn spec_survivors<T: HeaderTransform, F: HeaderPredicate>(
    t: T,
    f: F,
    frames: Seq<Seq<u8>>,
) -> Seq<Seq<u8>>
    decreases frames.len(),
{
    if frames.len() == 0 {
        Seq::empty()
    } else {
        let rest = spec_survivors(t, f, frames.drop_last());
        if spec_keeps(t, f, frames.last()) {
            rest.push(spec_transform_frame(t, frames.last()))
        } else {
            rest
        }
    }
}

/// The stage chain treats each frame on its own: the survivors of two
/// runs back to back are the survivors of the one then of the other.
pub proof fn lemma_survivors_append<T: HeaderTransform, F: HeaderPredicate>(
    t: T,
    f: F,
    a: Seq<Seq<u8>>,
    b: Seq<Seq<u8>>,
)
    ensures
        spec_survivors(t, f, a + b) == spec_survivors(t, f, a) + spec_survivors(t, f, b),
    decreases b.len(),
{
    if b.len() == 0 {
        assert(a + b =~= a);
        assert(spec_survivors(t, f, a) + spec_survivors(t, f, b) =~= spec_survivors(t, f, a));
    } else {
        lemma_survivors_append(t, f, a, b.drop_last());
        assert((a + b).drop_last() =~= a + b.drop_last());
        assert((a + b).last() == b.last());
        if spec_keeps(t, f, b.last()) {
            assert(spec_survivors(t, f, a) + spec_survivors(t, f, b.drop_last()).push(
                spec_transform_frame(t, b.last()),
            ) =~= (spec_survivors(t, f, a) + spec_survivors(t, f, b.drop_last())).push(
                spec_transform_frame(t, b.last()),
            ));
        }
    }
}

/// Filter exclusion, stated over the whole chain: everything the Sink
/// transmits is the transformed image of some received frame that
/// parsed and passed the filter. A frame the predicate refuses
/// contributes nothing to the transmit queue.
pub proof fn lemma_sink_receives_only_kept<T: HeaderTransform, F: HeaderPredicate>(
    t: T,
    f: F,
    frames: Seq<Seq<u8>>,
    q: Seq<u8>,
)
    requires
        spec_survivors(t, f, frames).contains(q),
    ensures
        exists|i: int|
            0 <= i < frames.len() && spec_keeps(t, f, frames[i]) && q == spec_transform_frame(
                t,
                frames[i],
            ),
    decreases frames.len(),
{
    let s = spec_survivors(t, f, frames);
    if frames.len() == 0 {
        assert(false);
    } else {
        let rest = spec_survivors(t, f, frames.drop_last());
        if spec_keeps(t, f, frames.last()) && q == spec_transform_frame(t, frames.last()) {
            assert(spec_keeps(t, f, frames[frames.len() - 1]) && q == spec_transform_frame(
                t,
                frames[frames.len() - 1],
            ));
        } else {
            assert(rest.contains(q)) by {
                let k = choose|k: int| 0 <= k < s.len() && s[k] == q;
                if spec_keeps(t, f, frames.last()) {
                    assert(k < rest.len());
                    assert(rest[k] == q);
                } else {
                    assert(rest[k] == q);
                }
            }
            lemma_sink_receives_only_kept(t, f, frames.drop_last(), q);
            let i = choose|i: int|
                0 <= i < frames.drop_last().len() && spec_keeps(t, f, frames.drop_last()[i])
                    && q == spec_transform_frame(t, frames.drop_last()[i]);
            assert(frames.drop_last()[i] == frames[i]);
        }
    }
}

/// Never more frames leave the chain than entered it.
pub proof fn lemma_survivors_len<T: HeaderTransform, F: HeaderPredicate>(
    t: T,
    f: F,
    frames: Seq<Seq<u8>>,
)
    ensures
        spec_survivors(t, f, frames).len() <= frames.len(),
    decreases frames.len(),
{
    if frames.len() > 0 {
        lemma_survivors_len(t, f, frames.drop_last());
    }
}

/// Filter exclusion, counted: a frame the chain refuses is missing
/// from the transmitted count as well — the survivors of a run with a
/// refused frame number strictly fewer than the frames received.
pub proof fn lemma_refused_frame_uncounted<T: HeaderTransform, F: HeaderPredicate>(
    t: T,
    f: F,
    frames: Seq<Seq<u8>>,
    i: int,
)
    requires
        0 <= i < frames.len(),
        !spec_keeps(t, f, frames[i]),
    ensures
        spec_survivors(t, f, frames).len() < frames.len(),
    decreases frames.len(),
{
    if i == frames.len() - 1 {
        lemma_survivors_len(t, f, frames.drop_last());
    } else {
        lemma_refused_frame_uncounted(t, f, frames.drop_last(), i);
    }
}

/// A batch that came out of the stage chain collects to exactly the
/// survivors of the frames that went in.
proof fn lemma_live_frames_are_survivors<T: HeaderTransform, F: HeaderPredicate>(
    t: T,
    f: F,
    frames: Seq<Seq<u8>>,
    b: Seq<SpecPacket>,
)
    requires
        b.len() == frames.len(),
        forall|i: int| 0 <= i < b.len() ==> b[i].live == spec_keeps(t, f, frames[i]),
        forall|i: int| 0 <= i < b.len() ==> b[i].live ==> b[i].data == spec_transform_frame(
            t,
            frames[i],
        ),
    ensures
        live_frames(b) == spec_survivors(t, f, frames),
    decreases b.len(),
{
    if b.len() > 0 {
        lemma_live_frames_are_survivors(t, f, frames.drop_last(), b.drop_last());
        assert(b.last() == b[b.len() - 1]);
        assert(frames.last() == frames[b.len() - 1]);
    }
}

/// How many frames one poll of the Source pulls: the batch bound, or
/// everything pending when less is there.
pub open spec fn spec_batch_len(batch_size: nat, p: SpecPort) -> nat {
    if batch_size <= p.pending().len() {
        batch_size
    } else {
        p.pending().len()
    }
}

/// The whole effect of one `process` call on the port: up to
/// `batch_size` pending frames are consumed, and exactly their
/// survivors, in arrival order, are appended to the transmit log.
pub open spec fn spec_process<T: HeaderTransform, F: HeaderPredicate>(
    t: T,
    f: F,
    batch_size: nat,
    p: SpecPort,
) -> SpecPort {
    let n = spec_batch_len(batch_size, p);
    SpecPort {
        arrivals: p.arrivals,
        consumed: p.consumed + n,
        transmitted: p.transmitted + spec_survivors(
            t,
            f,
            p.arrivals.subrange(p.consumed as int, (p.consumed + n) as int),
        ),
    }
}

/// Order preservation, end to end: in every well-formed pipeline
/// state, whatever run of polls led to it, the transmit log is
/// precisely the survivors of the consumed prefix of the arrival log,
/// in arrival order — receive-to-transmit order is never disturbed.
pub proof fn lemma_order_preserved<T: HeaderTransform, F: HeaderPredicate>(p: &Pipeline<T, F>)
    requires
        p.wf(),
    ensures
        p.spec_port().transmitted == spec_survivors(
            p.spec_transform(),
            p.spec_filter(),
            p.spec_port().arrivals.take(p.spec_port().consumed as int),
        ),
{
}

/// Empty-batch idempotence: a `process` call that finds no pending
/// frames changes nothing at all — no header is mutated, nothing is
/// transmitted, and both cumulative counters keep their values.
pub proof fn lemma_empty_poll_is_noop<T: HeaderTransform, F: HeaderPredicate>(
    t: T,
    f: F,
    batch_size: nat,
    p: SpecPort,
)
    requires
        p.wf(),
        p.pending().len() == 0,
    ensures
        spec_process(t, f, batch_size, p) == p,
{
    assert(spec_batch_len(batch_size, p) == 0);
    assert(p.arrivals.subrange(p.consumed as int, p.consumed as int) =~= Seq::<Seq<u8>>::empty());
    assert(p.transmitted + spec_survivors(t, f, Seq::<Seq<u8>>::empty()) =~= p.transmitted);
    assert(spec_process(t, f, batch_size, p) =~= p);
}

/// One runnable unit a worker core can drive: a single capability with
/// one `process` entry point, so unlike stage chains can be stored
/// together and merged. Each unit owns its own Source and Sink.
pub trait Runnable: Sized {
    spec fn inv(&self) -> bool;

    /// How many times the unit's Source has been polled.
    spec fn source_calls(&self) -> nat;

    /// Cumulative frames its port has received.
    spec fn rx_total(&self) -> nat;

    /// Cumulative frames its port has transmitted.
    spec fn tx_total(&self) -> nat;

    /// Drives the unit's whole chain, Source to Sink, once. Never
    /// blocks; under no traffic it is a no-op. Counters never move
    /// backwards.
    fn process(&mut self)
        requires
            old(self).inv(),
        ensures
            final(self).inv(),
            final(self).source_calls() == old(self).source_calls() + 1,
            final(self).rx_total() >= old(self).rx_total(),
            final(self).tx_total() >= old(self).tx_total(),
    ;

    /// Reads the unit's cumulative receive/transmit counters.
    fn stats(&self) -> (r: (u64, u64))
        requires
            self.inv(),
        ensures
            r.0 == self.rx_total(),
            r.1 == self.tx_total(),
    ;
}

/// A fixed chain of stages over one port: Source, Parse, Transform,
/// Filter, Sink. Built once, then driven repeatedly; the stage sequence
/// never changes for the pipeline's lifetime.
pub struct Pipeline<T: HeaderTransform, F: HeaderPredicate> {
    port: Port,
    transform: T,
    filter: F,
    batch_size: usize,
    rounds: Ghost<nat>,
}

impl<T: HeaderTransform, F: HeaderPredicate> Pipeline<T, F> {
    pub closed spec fn spec_port(&self) -> SpecPort {
        self.port@
    }

    pub closed spec fn spec_transform(&self) -> T {
        self.transform
    }

    pub closed spec fn spec_filter(&self) -> F {
        self.filter
    }

    pub closed spec fn spec_batch_size(&self) -> nat {
        self.batch_size as nat
    }

    /// How many times this pipeline's Source has been polled.
    pub closed spec fn spec_source_calls(&self) -> nat {
        self.rounds@
    }

    /// The pipeline invariant. Its heart is order preservation: at
    /// every reachable state, the transmit log is exactly the in-order
    /// survivors of the consumed prefix of the arrival log, so frames
    /// are retransmitted in the relative order they arrived.
    pub open spec fn wf(&self) -> bool {
        &&& self.spec_port().wf()
        &&& self.spec_batch_size() >= 1
        &&& self.spec_port().transmitted == spec_survivors(
            self.spec_transform(),
            self.spec_filter(),
            self.spec_port().arrivals.take(self.spec_port().consumed as int),
        )
    }

    /// Composes the stage chain over a fresh port into a pipeline.
    pub fn compose(port: Port, transform: T, filter: F, batch_size: usize) -> (p: Pipeline<T, F>)
        requires
            batch_size >= 1,
            port@.wf(),
            port@.consumed == 0,
            port@.transmitted == Seq::<Seq<u8>>::empty(),
        ensures
            p.wf(),
            p.spec_port() == port@,
            p.spec_transform() == transform,
            p.spec_filter() == filter,
            p.spec_batch_size() == batch_size,
            p.spec_source_calls() == 0,
    {
        proof {
            assert(port@.arrivals.take(0) =~= Seq::<Seq<u8>>::empty());
        }
        Pipeline { port, transform, filter, batch_size, rounds: Ghost(0) }
    }

    /// Puts one frame on the pipeline's receive queue.
    pub fn deliver(&mut self, frame: Vec<u8>)
        requires
            old(self).wf(),
        ensures
            final(self).wf(),
            final(self).spec_port().arrivals == old(self).spec_port().arrivals.push(frame@),
            final(self).spec_port().consumed == old(self).spec_port().consumed,
            final(self).spec_port().transmitted == old(self).spec_port().transmitted,
            final(self).spec_transform() == old(self).spec_transform(),
            final(self).spec_filter() == old(self).spec_filter(),
            final(self).spec_batch_size() == old(self).spec_batch_size(),
            final(self).spec_source_calls() == old(self).spec_source_calls(),
    {
        let ghost c = self.port@.consumed as int;
        let ghost a0 = self.port@.arrivals;
        self.port.deliver(frame);
        proof {
            assert(self.port@.arrivals.take(c) =~= a0.take(c));
        }
    }

    /// Drives the chain once: pull a batch, bind headers, transform,
    /// filter, hand the rest to the transmit queue. The exact effect on
    /// the port is `spec_process`; an empty pull runs the whole chain
    /// as a true no-op.
    pub fn poll(&mut self)
        requires
            old(self).wf(),
        ensures
            final(self).wf(),
            final(self).spec_port() == spec_process(
                old(self).spec_transform(),
                old(self).spec_filter(),
                old(self).spec_batch_size(),
                old(self).spec_port(),
            ),
            final(self).spec_transform() == old(self).spec_transform(),
            final(self).spec_filter() == old(self).spec_filter(),
            final(self).spec_batch_size() == old(self).spec_batch_size(),
            final(self).spec_source_calls() == old(self).spec_source_calls() + 1,
    {
        let ghost p0 = self.port@;
        let ghost t = self.transform;
        let ghost f = self.filter;
        let ghost n = spec_batch_len(self.batch_size as nat, p0);
        let ghost frames = p0.arrivals.subrange(p0.consumed as int, (p0.consumed + n) as int);

        let mut b = self.port.receive(self.batch_size);
        let ghost b0 = b@;
        proof {
            assert(b0.len() == n);
            assert forall|i: int| 0 <= i < b0.len() implies b0[i] == (SpecPacket {
                data: frames[i],
                live: true,
            }) by {
                assert(frames[i] == p0.arrivals[p0.consumed + i]);
            }
        }
        b.parse_stage();
        let ghost b1 = b@;
        b.transform_stage(&self.transform);
        let ghost b2 = b@;
        b.filter_stage(&self.filter);
        proof {
            assert forall|i: int| 0 <= i < b@.len() implies b@[i].live == spec_keeps(t, f, frames[i])
                && (b@[i].live ==> b@[i].data == spec_transform_frame(t, frames[i])) by {
                let d = frames[i];
                assert(b0[i] == SpecPacket { data: d, live: true });
                assert(b1[i] == SpecPacket { data: d, live: d.len() >= 14 });
                assert(b2[i] == SpecPacket {
                    data: if b1[i].live { spec_transform_frame(t, d) } else { d },
                    live: b1[i].live,
                });
                assert(b@[i] == SpecPacket {
                    data: b2[i].data,
                    live: b2[i].live && f.spec_test(spec_parse_header(b2[i].data)),
                });
                if d.len() >= 14 {
                    assert(spec_parse_header(d).wf());
                    t.spec_apply_wf(spec_parse_header(d));
                    lemma_parse_store_header(t.spec_apply(spec_parse_header(d)), d);
                    assert(spec_parse_header(spec_transform_frame(t, d)) == t.spec_apply(
                        spec_parse_header(d),
                    ));
                }
            }
            lemma_live_frames_are_survivors(t, f, frames, b@);
        }
        self.port.transmit(b);
        proof {
            self.rounds@ = self.rounds@ + 1;
            assert(self.port@ =~= spec_process(t, f, old(self).spec_batch_size(), p0));
            assert(p0.arrivals.take((p0.consumed + n) as int) =~= p0.arrivals.take(p0.consumed as int)
                + frames);
            lemma_survivors_append(
                t,
                f,
                p0.arrivals.take(p0.consumed as int),
                frames,
            );
        }
    }

    /// Reads the port's cumulative receive/transmit counters.
    pub fn stats(&self) -> (r: (u64, u64))
        ensures
            r.0 == self.spec_port().consumed,
            r.1 == self.spec_port().transmitted.len(),
    {
        self.port.stats()
    }

    /// Read access to the owned port, for observation.
    pub fn port(&self) -> (p: &Port)
        ensures
            p@ == self.spec_port(),
    {
        &self.port
    }
}

impl<T: HeaderTransform, F: HeaderPredicate> Runnable for Pipeline<T, F> {
    open spec fn inv(&self) -> bool {
        self.wf()
    }

    open spec fn source_calls(&self) -> nat {
        self.spec_source_calls()
    }

    open spec fn rx_total(&self) -> nat {
        self.spec_port().consumed
    }

    open spec fn tx_total(&self) -> nat {
        self.spec_port().transmitted.len()
    }

    fn process(&mut self) {
        self.poll();
    }

    fn stats(&self) -> (r: (u64, u64)) {
        self.stats()
    }
}

/// The mirroring chain: parse the MAC header, swap its source and
/// destination addresses in place, filter nothing out, and send every
/// surviving frame back out the queue it arrived on.
pub fn mirror_pipeline(port: Port, batch_size: usize) -> (p: Pipeline<MacSwap, AcceptAll>)
    requires
        batch_size >= 1,
        port@.wf(),
        port@.consumed == 0,
        port@.transmitted == Seq::<Seq<u8>>::empty(),
    ensures
        p.wf(),
        p.spec_port() == port@,
        p.spec_transform() == MacSwap,
        p.spec_filter() == AcceptAll,
        p.spec_batch_size() == batch_size,
        p.spec_source_calls() == 0,
{
    Pipeline::compose(port, MacSwap, AcceptAll, batch_size)
}

/// A finished chain behind one opaque runnable shape, so chains of
/// unlike stage types can stand in one merged collection and be driven
/// uniformly. Dispatch happens only here, at the merge boundary; the
/// stage-to-stage calls inside each chain stay statically typed.
pub enum Composition {
    /// The plain mirroring chain.
    Mirror(Pipeline<MacSwap, AcceptAll>),
    /// A mirroring chain that also keeps only one ethertype.
    MirrorOfEthertype(Pipeline<MacSwap, EthertypeIs>),
}

impl Runnable for Composition {
    open spec fn inv(&self) -> bool {
        match self {
            Composition::Mirror(p) => p.wf(),
            Composition::MirrorOfEthertype(p) => p.wf(),
        }
    }

    open spec fn source_calls(&self) -> nat {
        match self {
            Composition::Mirror(p) => p.spec_source_calls(),
            Composition::MirrorOfEthertype(p) => p.spec_source_calls(),
        }
    }

    open spec fn rx_total(&self) -> nat {
        match self {
            Composition::Mirror(p) => p.spec_port().consumed,
            Composition::MirrorOfEthertype(p) => p.spec_port().consumed,
        }
    }

    open spec fn tx_total(&self) -> nat {
        match self {
            Composition::Mirror(p) => p.spec_port().transmitted.len(),
            Composition::MirrorOfEthertype(p) => p.spec_port().transmitted.len(),
        }
    }

    fn process(&mut self) {
        match self {
            Composition::Mirror(p) => p.poll(),
            Composition::MirrorOfEthertype(p) => p.poll(),
        }
    }

    fn stats(&self) -> (r: (u64, u64)) {
        match self {
            Composition::Mirror(p) => p.stats(),
            Composition::MirrorOfEthertype(p) => p.stats(),
        }
    }
}

} // verus!
