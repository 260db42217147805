use vstd::prelude::*;

verus! {

/// Number of bytes in an Ethernet MAC header: 6 destination bytes,
/// 6 source bytes and 2 ethertype bytes.
pub const MAC_HEADER_BYTES: usize = 14;

/// Mathematical model of a MAC header: the three byte fields.
#[verifier::ext_equal]
pub struct SpecMacHeader {
    pub dst: Seq<u8>,
    pub src: Seq<u8>,
    pub ethertype: Seq<u8>,
}

impl SpecMacHeader {
    /// The three fields have their wire sizes.
    pub open spec fn wf(self) -> bool {
        self.dst.len() == 6 && self.src.len() == 6 && self.ethertype.len() == 2
    }
}

/// A typed view over the first bytes of a packet buffer: destination
/// address, source address and ethertype. Bound onto a frame by the
/// Parse stage and written back after a Transform mutates it.
pub struct MacHeader {
    pub dst: Vec<u8>,
    pub src: Vec<u8>,
    pub ethertype: Vec<u8>,
}

impl View for MacHeader {
    type V = SpecMacHeader;

    open spec fn view(&self) -> SpecMacHeader {
        SpecMacHeader { dst: self.dst@, src: self.src@, ethertype: self.ethertype@ }
    }
}

impl MacHeader {
    pub open spec fn wf(self) -> bool {
        self@.wf()
    }
}

/// The header encoded at the front of a frame `d` with at least
/// `MAC_HEADER_BYTES` bytes.
pub open spec fn spec_parse_header(d: Seq<u8>) -> SpecMacHeader {
    SpecMacHeader {
        dst: d.subrange(0, 6),
        src: d.subrange(6, 12),
        ethertype: d.subrange(12, 14),
    }
}

/// The frame `d` with its first `MAC_HEADER_BYTES` bytes replaced by the
/// encoding of `h`.
pub open spec fn spec_store_header(h: SpecMacHeader, d: Seq<u8>) -> Seq<u8> {
    h.dst + h.src + h.ethertype + d.skip(14)
}

/// Reading back a header that was just stored recovers it exactly.
pub proof fn lemma_parse_store_header(h: SpecMacHeader, d: Seq<u8>)
    requires
        h.wf(),
        d.len() >= 14,
    ensures
        spec_store_header(h, d).len() == d.len(),
        spec_parse_header(spec_store_header(h, d)) == h,
{
    let s = spec_store_header(h, d);
    assert(s.subrange(0, 6) =~= h.dst);
    assert(s.subrange(6, 12) =~= h.src);
    assert(s.subrange(12, 14) =~= h.ethertype);
}

/// Storing the header a frame already carries leaves the frame unchanged.
pub proof fn lemma_store_own_header(d: Seq<u8>)
    requires
        d.len() >= 14,
    ensures
        spec_store_header(spec_parse_header(d), d) == d,
{
    assert(spec_store_header(spec_parse_header(d), d) =~= d);
}

/// Copies the MAC header out of the front of a frame.
pub fn read_header(data: &Vec<u8>) -> (h: MacHeader)
    requires
        data.len() >= MAC_HEADER_BYTES,
    ensures
        h.wf(),
        h@ == spec_parse_header(data@),
{
    let mut dst: Vec<u8> = Vec::new();
    let mut i: usize = 0;
    while i < 6
        invariant
            i <= 6,
            data.len() >= 14,
            dst@ =~= data@.subrange(0, i as int),
        decreases 6 - i,
    {
        dst.push(data[i]);
        i = i + 1;
    }
    let mut src: Vec<u8> = Vec::new();
    let mut j: usize = 6;
    while j < 12
        invariant
            6 <= j <= 12,
            data.len() >= 14,
            src@ =~= data@.subrange(6, j as int),
        decreases 12 - j,
    {
        src.push(data[j]);
        j = j + 1;
    }
    let mut ethertype: Vec<u8> = Vec::new();
    ethertype.push(data[12]);
    ethertype.push(data[13]);
    let h = MacHeader { dst, src, ethertype };
    proof {
        assert(h@.dst =~= data@.subrange(0, 6));
        assert(h@.src =~= data@.subrange(6, 12));
        assert(h@.ethertype =~= data@.subrange(12, 14));
    }
    h
}

/// Writes a header back over the first bytes of a frame, in place.
pub fn write_header(data: &mut Vec<u8>, h: &MacHeader)
    requires
        old(data).len() >= MAC_HEADER_BYTES,
        h.wf(),
    ensures
        final(data)@ == spec_store_header(h@, old(data)@),
        final(data).len() == old(data).len(),
{
    let mut i: usize = 0;
    while i < 6
        invariant
            i <= 6,
            h.wf(),
            data.len() == old(data).len() >= 14,
            forall|k: int| 0 <= k < i ==> data@[k] == h@.dst[k],
            forall|k: int| i <= k < data.len() ==> data@[k] == old(data)@[k],
        decreases 6 - i,
    {
        data.set(i, h.dst[i]);
        i = i + 1;
    }
    let mut j: usize = 0;
    while j < 6
        invariant
            j <= 6,
            h.wf(),
            data.len() == old(data).len() >= 14,
            forall|k: int| 0 <= k < 6 ==> data@[k] == h@.dst[k],
            forall|k: int| 0 <= k < j ==> data@[6 + k] == h@.src[k],
            forall|k: int| 6 + j <= k < data.len() ==> data@[k] == old(data)@[k],
        decreases 6 - j,
    {
        data.set(6 + j, h.src[j]);
        j = j + 1;
    }
    data.set(12, h.ethertype[0]);
    data.set(13, h.ethertype[1]);
    proof {
        assert(data@ =~= spec_store_header(h@, old(data)@));
    }
}

/// A pure in-place header mutation, the operator a Transform stage runs
/// over every live packet. `spec_apply` is the mathematical meaning of
/// one application; `apply` performs it on one bound header.
pub trait HeaderTransform: Sized {
    spec fn spec_apply(&self, h: SpecMacHeader) -> SpecMacHeader;

    /// The mutation never changes the field sizes.
    proof fn spec_apply_wf(&self, h: SpecMacHeader)
        requires
            h.wf(),
        ensures
            self.spec_apply(h).wf(),
        ;

    fn apply(&self, h: &mut MacHeader)
        requires
            old(h).wf(),
        ensures
            final(h).wf(),
            final(h)@ == self.spec_apply(old(h)@),
        ;
}

/// The mirroring transform: exchanges the destination and source
/// addresses so the frame can be reflected back out the queue it
/// arrived on.
pub struct MacSwap;

impl HeaderTransform for MacSwap {
    open spec fn spec_apply(&self, h: SpecMacHeader) -> SpecMacHeader {
        SpecMacHeader { dst: h.src, src: h.dst, ethertype: h.ethertype }
    }

    proof fn spec_apply_wf(&self, h: SpecMacHeader) {
    }

    fn apply(&self, h: &mut MacHeader) {
        let mut saved_src = Vec::new();
        core::mem::swap(&mut saved_src, &mut h.src);
        core::mem::swap(&mut h.src, &mut h.dst);
        core::mem::swap(&mut h.dst, &mut saved_src);
    }
}

/// Swapping the addresses twice restores the original header: the
/// mirroring transform is an involution.
pub proof fn lemma_mac_swap_involution(h: SpecMacHeader)
    ensures
        MacSwap.spec_apply(MacSwap.spec_apply(h)) == h,
        MacSwap.spec_apply(h).dst == h.src,
        MacSwap.spec_apply(h).src == h.dst,
        MacSwap.spec_apply(h).ethertype == h.ethertype,
{
}

/// A predicate over a bound header, the test a Filter stage runs per
/// live packet. Packets whose header fails the test are marked dead.
pub trait HeaderPredicate: Sized {
    spec fn spec_test(&self, h: SpecMacHeader) -> bool;

    fn test(&self, h: &MacHeader) -> (r: bool)
        requires
            h.wf(),
        ensures
            r == self.spec_test(h@),
        ;
}

/// The predicate that keeps every packet, as the mirroring pipeline uses.
pub struct AcceptAll;

impl HeaderPredicate for AcceptAll {
    open spec fn spec_test(&self, h: SpecMacHeader) -> bool {
        true
    }

    fn test(&self, h: &MacHeader) -> (r: bool) {
        true
    }
}

/// A predicate that keeps only frames carrying the given ethertype.
pub struct EthertypeIs {
    pub hi: u8,
    pub lo: u8,
}

impl HeaderPredicate for EthertypeIs {
    open spec fn spec_test(&self, h: SpecMacHeader) -> bool {
        h.ethertype == seq![self.hi, self.lo]
    }

    fn test(&self, h: &MacHeader) -> (r: bool) {
        let r = h.ethertype[0] == self.hi && h.ethertype[1] == self.lo;
        proof {
            if r {
                assert(h@.ethertype =~= seq![self.hi, self.lo]);
            } else {
                assert(h@.ethertype != seq![self.hi, self.lo]) by {
                    if h@.ethertype == seq![self.hi, self.lo] {
                        assert(h@.ethertype[0] == self.hi);
                        assert(h@.ethertype[1] == self.lo);
                    }
                }
            }
        }
        r
    }
}

} // verus!
