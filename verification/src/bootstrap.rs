use vstd::prelude::*;

verus! {

/// Configuration faults detected before any worker thread starts.
/// They are fatal: the process reports them and exits, with no
/// partial-success mode.
#[derive(Clone, Copy, PartialEq, Eq, Structural, Debug)]
pub enum ConfigError {
    /// More worker cores were requested than ports were whitelisted.
    MoreCoresThanPorts,
    /// A core given on the command line is not a decimal number that a
    /// 32-bit identifier can hold.
    BadCoreSpec,
}

impl ConfigError {
    /// The operator-facing description of the fault.
    pub fn message(&self) -> (m: &'static str)
        ensures
            *self is MoreCoresThanPorts ==> m@ == "More cores than ports"@,
            *self is BadCoreSpec ==> m@ == "Could not parse core spec"@,
    {
        match self {
            ConfigError::MoreCoresThanPorts => "More cores than ports",
            ConfigError::BadCoreSpec => "Could not parse core spec",
        }
    }
}

pub open spec fn spec_is_digit(b: u8) -> bool {
    48 <= b && b <= 57
}

pub open spec fn spec_all_digits(s: Seq<u8>) -> bool {
    forall|i: int| 0 <= i < s.len() ==> spec_is_digit(s[i])
}

/// The number a run of decimal digit bytes denotes.
pub open spec fn spec_decimal_value(s: Seq<u8>) -> nat
    decreases s.len(),
{
    if s.len() == 0 {
        0
    } else {
        (spec_decimal_value(s.drop_last()) * 10 + (s.last() - 48)) as nat
    }
}

/// A digit string denotes at least what any of its prefixes denotes.
proof fn lemma_decimal_prefix_le(s: Seq<u8>, i: int)
    requires
        0 <= i <= s.len(),
        spec_all_digits(s),
    ensures
        spec_decimal_value(s.take(i)) <= spec_decimal_value(s),
    decreases s.len() - i,
{
    if i < s.len() {
        assert(s.take(i + 1).drop_last() =~= s.take(i));
        assert(s.take(i + 1).last() == s[i]);
        assert(spec_decimal_value(s.take(i + 1)) >= spec_decimal_value(s.take(i)));
        lemma_decimal_prefix_le(s, i + 1);
    } else {
        assert(s.take(i) =~= s);
    }
}

/// Reads a core identifier from its command-line spelling: a non-empty
/// run of decimal digits whose value fits an identifier. Anything else
/// is refused, exactly as stated.
pub fn parse_core_id(s: &Vec<u8>) -> (r: Option<u32>)
    ensures
        r is Some ==> s@.len() > 0 && spec_all_digits(s@) && spec_decimal_value(s@) <= u32::MAX
            && r->Some_0 == spec_decimal_value(s@),
        r is None ==> s@.len() == 0 || !spec_all_digits(s@) || spec_decimal_value(s@) > u32::MAX,
{
    if s.len() == 0 {
        return None;
    }
    let n = s.len();
    let mut acc: u32 = 0;
    let mut i: usize = 0;
    while i < n
        invariant
            n == s@.len(),
            i <= n,
            forall|j: int| 0 <= j < i ==> spec_is_digit(s@[j]),
            acc == spec_decimal_value(s@.take(i as int)),
        decreases n - i,
    {
        let b = s[i];
        if b < 48 || b > 57 {
            return None;
        }
        proof {
            assert(s@.take(i as int + 1).drop_last() =~= s@.take(i as int));
            assert(s@.take(i as int + 1).last() == s@[i as int]);
        }
        let d = (b - 48) as u64;
        let wide: u64 = acc as u64 * 10 + d;
        proof {
            assert(wide == spec_decimal_value(s@.take(i as int + 1)));
        }
        if wide > u32::MAX as u64 {
            proof {
                if spec_all_digits(s@) {
                    lemma_decimal_prefix_le(s@, i as int + 1);
                }
            }
            return None;
        }
        acc = wide as u32;
        i = i + 1;
    }
    proof {
        assert(s@.take(i as int) =~= s@);
    }
    Some(acc)
}

/// Reads a core identifier as `parse_core_id` does, but surfaces the
/// failure as the configuration error the bootstrap path reports.
pub fn parse_core_spec(s: &Vec<u8>) -> (r: Result<u32, ConfigError>)
    ensures
        r matches Ok(v) ==> s@.len() > 0 && spec_all_digits(s@) && spec_decimal_value(s@)
            <= u32::MAX && v == spec_decimal_value(s@),
        r matches Err(e) ==> e == ConfigError::BadCoreSpec && (s@.len() == 0 || !spec_all_digits(
            s@,
        ) || spec_decimal_value(s@) > u32::MAX),
{
    match parse_core_id(s) {
        Some(v) => Ok(v),
        None => Err(ConfigError::BadCoreSpec),
    }
}

/// Mathematical model of one core's assignment: the core identifier
/// and the port indices it will poll, in the order they were assigned.
#[verifier::ext_equal]
pub struct SpecCoreEntry {
    pub core: u32,
    pub ports: Seq<u32>,
}

/// One core's assignment: the core identifier and the ports its worker
/// loop will own.
pub struct CoreEntry {
    pub core: u32,
    pub ports: Vec<u32>,
}

impl View for CoreEntry {
    type V = SpecCoreEntry;

    open spec fn view(&self) -> SpecCoreEntry {
        SpecCoreEntry { core: self.core, ports: self.ports@ }
    }
}

pub open spec fn spec_entries(v: Seq<CoreEntry>) -> Seq<SpecCoreEntry> {
    v.map_values(|e: CoreEntry| e@)
}

pub open spec fn spec_has_core(m: Seq<SpecCoreEntry>, c: u32) -> bool {
    exists|j: int| 0 <= j < m.len() && m[j].core == c
}

pub open spec fn spec_core_index(m: Seq<SpecCoreEntry>, c: u32) -> int {
    choose|j: int| 0 <= j < m.len() && m[j].core == c
}

pub open spec fn spec_unique_cores(m: Seq<SpecCoreEntry>) -> bool {
    forall|j: int, k: int| 0 <= j < k < m.len() ==> m[j].core != m[k].core
}

/// The core-to-ports mapping the requested cores induce: port index
/// `i` goes to the `i`-th requested core; a core requested twice
/// accumulates its ports in order; entries appear in the order a core
/// was first requested.
pub open spec fn spec_core_map(cores: Seq<u32>) -> Seq<SpecCoreEntry>
    decreases cores.len(),
{
    if cores.len() == 0 {
        Seq::empty()
    } else {
        let m = spec_core_map(cores.drop_last());
        let c = cores.last();
        let p = (cores.len() - 1) as u32;
        if spec_has_core(m, c) {
            let j = spec_core_index(m, c);
            m.update(j, SpecCoreEntry { core: c, ports: m[j].ports.push(p) })
        } else {
            m.push(SpecCoreEntry { core: c, ports: seq![p] })
        }
    }
}

/// No core owns two entries of the mapping.
pub proof fn lemma_core_map_unique(cores: Seq<u32>)
    ensures
        spec_unique_cores(spec_core_map(cores)),
    decreases cores.len(),
{
    if cores.len() > 0 {
        lemma_core_map_unique(cores.drop_last());
    }
}

/// The per-core port assignment, as the bootstrap layer hands it to
/// the worker threads.
pub struct CoreMap {
    entries: Vec<CoreEntry>,
}

impl View for CoreMap {
    type V = Seq<SpecCoreEntry>;

    closed spec fn view(&self) -> Seq<SpecCoreEntry> {
        spec_entries(self.entries@)
    }
}

impl CoreMap {
    pub fn len(&self) -> (n: usize)
        ensures
            n == self@.len(),
    {
        self.entries.len()
    }

    pub fn entry(&self, i: usize) -> (e: &CoreEntry)
        requires
            i < self@.len(),
        ensures
            e@ == self@[i as int],
    {
        &self.entries[i]
    }
}

/// The bootstrap check and assignment. Requesting more cores than
/// there are whitelisted ports is the fatal configuration error, found
/// before any thread starts; otherwise port `i` is assigned to the
/// `i`-th requested core and the full mapping is returned.
pub fn assign_ports(cores: &Vec<u32>, n_ports: usize) -> (r: Result<CoreMap, ConfigError>)
    requires
        cores@.len() <= u32::MAX,
    ensures
        cores@.len() > n_ports ==> r == Err::<CoreMap, ConfigError>(
            ConfigError::MoreCoresThanPorts,
        ),
        cores@.len() <= n_ports ==> (r matches Ok(m) && m@ == spec_core_map(cores@)),
{
    if cores.len() > n_ports {
        return Err(ConfigError::MoreCoresThanPorts);
    }
    let n = cores.len();
    let mut entries: Vec<CoreEntry> = Vec::new();
    let mut i: usize = 0;
    while i < n
        invariant
            n == cores@.len() <= u32::MAX,
            i <= n,
            spec_entries(entries@) == spec_core_map(cores@.take(i as int)),
        decreases n - i,
    {
        let ghost m0 = spec_entries(entries@);
        let c = cores[i];
        proof {
            lemma_core_map_unique(cores@.take(i as int));
            assert(cores@.take(i as int + 1).drop_last() =~= cores@.take(i as int));
            assert(cores@.take(i as int + 1).last() == cores@[i as int]);
        }
        let mut k: usize = 0;
        while k < entries.len() && entries[k].core != c
            invariant
                k <= entries@.len(),
                forall|j: int| 0 <= j < k ==> entries@[j]@.core != c,
            decreases entries@.len() - k,
        {
            k = k + 1;
        }
        if k < entries.len() {
            proof {
                assert(m0[k as int].core == c);
                assert(spec_has_core(m0, c));
                let j0 = spec_core_index(m0, c);
                assert(0 <= j0 < m0.len() && m0[j0].core == c);
                if j0 != k as int {
                    assert(spec_unique_cores(m0));
                    assert(false);
                }
            }
            let ghost v0 = entries@;
            let mut e = entries.remove(k);
            e.ports.push(i as u32);
            entries.insert(k, e);
            proof {
                assert(entries@ =~= v0.update(k as int, entries@[k as int]));
                assert(spec_entries(entries@) =~= m0.update(
                    k as int,
                    SpecCoreEntry { core: c, ports: m0[k as int].ports.push(i as u32) },
                ));
                assert(spec_entries(entries@) =~= spec_core_map(cores@.take(i as int + 1)));
            }
        } else {
            proof {
                assert(!spec_has_core(m0, c));
            }
            let mut ports: Vec<u32> = Vec::new();
            ports.push(i as u32);
            entries.push(CoreEntry { core: c, ports });
            proof {
                assert(entries@.last()@ =~= (SpecCoreEntry { core: c, ports: seq![i as u32] }));
                assert(spec_entries(entries@) =~= spec_core_map(cores@.take(i as int + 1)));
            }
        }
        i = i + 1;
    }
    proof {
        assert(cores@.take(i as int) =~= cores@);
    }
    Ok(CoreMap { entries })
}

} // verus!
