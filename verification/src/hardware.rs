//! Hardware report details that do not involve measurements: the CPU's
//! display name, the choice of the GPU to report, and the total of the
//! per-adapter GPU memory counters.

use vstd::prelude::*;

use crate::text::{chars_of, string_of, trim, trim_seq};

verus! {

pub open spec fn cpu_name_spec(first_brand: Option<Seq<char>>) -> Seq<char> {
    match first_brand {
        Some(b) => trim_seq(b),
        None => "Unknown CPU"@,
    }
}

/// Display name of the CPU: the brand string of the first core, trimmed, or
/// `Unknown CPU` when no core is reported.
pub fn cpu_name(first_brand: Option<&str>) -> (n: String)
    ensures
        n@ == cpu_name_spec(match first_brand { Some(b) => Some(b@), None => None }),
{
    match first_brand {
        Some(b) => {
            let cs = chars_of(b);
            let t = trim(cs.as_slice());
            string_of(&t)
        },
        None => String::from_str("Unknown CPU"),
    }
}

pub open spec fn sum(s: Seq<u64>) -> nat
    decreases s.len(),
{
    if s.len() == 0 {
        0
    } else {
        sum(s.drop_last()) + s.last() as nat
    }
}

proof fn lemma_sum_prefix_le(s: Seq<u64>, i: int)
    requires
        0 <= i <= s.len(),
    ensures
        sum(s.subrange(0, i)) <= sum(s),
    decreases s.len() - i,
{
    if i < s.len() {
        lemma_sum_prefix_le(s, i + 1);
        assert(s.subrange(0, i + 1).drop_last() =~= s.subrange(0, i));
    } else {
        assert(s.subrange(0, i) =~= s);
    }
}

/// Total local memory in use over all adapter segments, in KiB.
pub fn total_adapter_memory_kb(segments_kb: &Vec<u64>) -> (total: u64)
    requires
        sum(segments_kb@) <= u64::MAX,
    ensures
        total == sum(segments_kb@),
{
    let mut total: u64 = 0;
    let mut i: usize = 0;
    while i < segments_kb.len()
        invariant
            i <= segments_kb.len(),
            sum(segments_kb@) <= u64::MAX,
            total == sum(segments_kb@.subrange(0, i as int)),
        decreases segments_kb.len() - i,
    {
        proof {
            assert(segments_kb@.subrange(0, i + 1).drop_last() =~= segments_kb@.subrange(0, i as int));
            lemma_sum_prefix_le(segments_kb@, i + 1);
        }
        total = total + segments_kb[i];
        i += 1;
    }
    assert(segments_kb@.subrange(0, i as int) =~= segments_kb@);
    total
}

// ── GPU choice ───────────────────────────────────────────────────────────────

/// Kind of a graphics adapter, as the GPU API reports it.
#[derive(Clone, Copy)]
pub enum AdapterKind {
    Discrete,
    Integrated,
    /// Virtual or otherwise unclassified adapters.
    Other,
    /// Software rasterisers running on the CPU.
    Cpu,
}

/// An adapter as seen by the selection: its kind and its memory in bytes.
#[derive(Clone, Copy)]
pub struct AdapterInfo {
    pub kind: AdapterKind,
    pub vram_bytes: u64,
}

/// Preference between adapter kinds; CPU adapters are never chosen.
pub open spec fn kind_rank(k: AdapterKind) -> int {
    match k {
        AdapterKind::Discrete => 2,
        AdapterKind::Integrated => 1,
        AdapterKind::Other => 0,
        AdapterKind::Cpu => -1,
    }
}

pub open spec fn eligible(a: AdapterInfo) -> bool {
    !(a.kind is Cpu)
}

/// `a` beats `b`: a preferred kind, or the same kind with more memory.
pub open spec fn beats(a: AdapterInfo, b: AdapterInfo) -> bool {
    kind_rank(a.kind) > kind_rank(b.kind) || (kind_rank(a.kind) == kind_rank(b.kind) && a.vram_bytes > b.vram_bytes)
}

fn rank(k: AdapterKind) -> (r: u8)
    requires
        !(k is Cpu),
    ensures
        r as int == kind_rank(k),
{
    match k {
        AdapterKind::Discrete => 2,
        AdapterKind::Integrated => 1,
        AdapterKind::Other => 0,
        AdapterKind::Cpu => 0,
    }
}

/// The adapter to report: discrete before integrated before others, the
/// most memory among adapters of the same kind, the first of equals; CPU
/// adapters are excluded, so `None` when only those exist.
pub fn best_gpu(adapters: &Vec<AdapterInfo>) -> (r: Option<usize>)
    ensures
        r is None <==> forall|j: int| 0 <= j < adapters@.len() ==> !eligible(#[trigger] adapters@[j]),
        r matches Some(i) ==> i < adapters@.len() && eligible(adapters@[i as int])
            && (forall|j: int| 0 <= j < adapters@.len() && eligible(#[trigger] adapters@[j]) ==> !beats(adapters@[j], adapters@[i as int]))
            && (forall|j: int| 0 <= j < i && eligible(#[trigger] adapters@[j]) ==> beats(adapters@[i as int], adapters@[j])),
{
    let mut best: Option<usize> = None;
    let mut k: usize = 0;
    while k < adapters.len()
        invariant
            k <= adapters.len(),
            best is None ==> forall|j: int| 0 <= j < k ==> !eligible(#[trigger] adapters@[j]),
            best matches Some(i) ==> i < k && eligible(adapters@[i as int])
                && (forall|j: int| 0 <= j < k && eligible(#[trigger] adapters@[j]) ==> !beats(adapters@[j], adapters@[i as int]))
                && (forall|j: int| 0 <= j < i && eligible(#[trigger] adapters@[j]) ==> beats(adapters@[i as int], adapters@[j])),
        decreases adapters.len() - k,
    {
        let a = adapters[k];
        let is_cpu = match a.kind {
            AdapterKind::Cpu => true,
            _ => false,
        };
        if !is_cpu {
            match best {
                None => {
                    best = Some(k);
                },
                Some(i) => {
                    let b = adapters[i];
                    let ra = rank(a.kind);
                    let rb = rank(b.kind);
                    if ra > rb || (ra == rb && a.vram_bytes > b.vram_bytes) {
                        best = Some(k);
                    }
                },
            }
        }
        k += 1;
    }
    best
}

} // verus!
