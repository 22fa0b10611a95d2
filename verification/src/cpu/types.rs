//! The core topology: which logical processors are performance cores, which
//! are efficiency cores, and the affinity masks that stand for each class.

use vstd::prelude::*;
use vstd::string::StringExecFns;
use crate::utils::text::{
    decimal,
    decimal_digits,
    lowercase,
    same_text,
    to_lowercase,
    upper_hex,
    upper_hex_digits,
};

verus! {

/// The class of a core on a hybrid processor.
#[derive(Debug, Clone, Copy, PartialEq, Eq, Structural)]
pub enum CoreType {
    Performance,
    Efficient,
    Unknown,
}

/// How the topology is found.
#[derive(Debug, Clone, Copy, PartialEq, Eq, Structural)]
pub enum DetectionMode {
    Auto,
    Manual,
    AllCores,
}

/// The mode that a lower-case name selects; unknown names select `Auto`.
pub open spec fn detection_mode_named(lower: Seq<char>) -> DetectionMode {
    if lower == "manual"@ {
        DetectionMode::Manual
    } else if lower == "all_cores"@ || lower == "allcores"@ {
        DetectionMode::AllCores
    } else {
        DetectionMode::Auto
    }
}

impl DetectionMode {
    /// Picks the mode for a name that is already in lower case.
    pub fn from_lowercase(lower: &str) -> (mode: DetectionMode)
        ensures
            mode == detection_mode_named(lower@),
    {
        if same_text(lower, "manual") {
            DetectionMode::Manual
        } else if same_text(lower, "all_cores") || same_text(lower, "allcores") {
            DetectionMode::AllCores
        } else {
            DetectionMode::Auto
        }
    }

    /// Picks the mode for a configured name, whatever its case.
    pub fn from_str(s: &str) -> (mode: DetectionMode)
        ensures
            mode == detection_mode_named(lowercase(s@)),
    {
        let lower = to_lowercase(s);
        DetectionMode::from_lowercase(lower.as_str())
    }
}

/// Whether every index names a bit of an affinity mask.
pub open spec fn fits_mask(cores: Seq<u32>) -> bool {
    forall|i: int| 0 <= i < cores.len() ==> cores[i] < usize::BITS
}

/// The affinity mask of a list of core indices: the bitwise OR of `1 << i`
/// over every index `i` of the list.
pub open spec fn mask_of(cores: Seq<u32>) -> usize
    decreases cores.len(),
{
    if cores.len() == 0 {
        0
    } else {
        mask_of(cores.drop_last()) | (1usize << cores.last())
    }
}

/// Whether `bit` is set in `mask`.
pub open spec fn has_bit(mask: usize, bit: u32) -> bool {
    mask & (1usize << bit) != 0
}

/// The indices `0, 1, .., count - 1` in order.
pub open spec fn first_cores(count: nat) -> Seq<u32> {
    Seq::new(count, |i: int| i as u32)
}

/// Whether no index occurs in both lists.
pub open spec fn disjoint_cores(p: Seq<u32>, e: Seq<u32>) -> bool {
    forall|i: int, j: int| 0 <= i < p.len() && 0 <= j < e.len() ==> p[i] != e[j]
}

/// The decimal numerals of the indices, separated by a comma and a space.
pub open spec fn items_text(cores: Seq<u32>) -> Seq<char>
    decreases cores.len(),
{
    if cores.len() == 0 {
        Seq::empty()
    } else if cores.len() == 1 {
        decimal_digits(cores[0] as nat)
    } else {
        items_text(cores.drop_last()) + ", "@ + decimal_digits(cores.last() as nat)
    }
}

/// A list of indices in text: its items between square brackets.
pub open spec fn list_text(cores: Seq<u32>) -> Seq<char> {
    "["@ + items_text(cores) + "]"@
}

/// The cores of a machine by class, with the affinity mask of each class.
#[derive(Debug, Clone)]
pub struct CoreInfo {
    /// Indices of the performance cores.
    pub p_cores: Vec<u32>,
    /// Indices of the efficiency cores.
    pub e_cores: Vec<u32>,
    /// Number of logical processors.
    pub total_cores: u32,
    /// Affinity mask of the performance cores.
    pub p_core_mask: usize,
    /// Affinity mask of the efficiency cores.
    pub e_core_mask: usize,
}

impl CoreInfo {
    /// The record is consistent: each mask is the mask of its list and the
    /// total counts both lists.
    pub open spec fn wf(&self) -> bool {
        &&& fits_mask(self.p_cores@)
        &&& fits_mask(self.e_cores@)
        &&& self.p_core_mask == mask_of(self.p_cores@)
        &&& self.e_core_mask == mask_of(self.e_cores@)
        &&& self.total_cores == self.p_cores@.len() + self.e_cores@.len()
    }

    /// Whether both classes of core are present.
    pub open spec fn is_hybrid(&self) -> bool {
        self.p_cores@.len() > 0 && self.e_cores@.len() > 0
    }

    /// Builds the topology from the two lists of core indices.
    pub fn new(p_cores: Vec<u32>, e_cores: Vec<u32>) -> (info: CoreInfo)
        requires
            fits_mask(p_cores@),
            fits_mask(e_cores@),
            p_cores@.len() + e_cores@.len() <= u32::MAX,
        ensures
            info.wf(),
            info.p_cores@ == p_cores@,
            info.e_cores@ == e_cores@,
    {
        let total: usize = p_cores.len() + e_cores.len();
        let p_core_mask = Self::calculate_mask(&p_cores);
        let e_core_mask = Self::calculate_mask(&e_cores);
        CoreInfo { p_cores, e_cores, total_cores: total as u32, p_core_mask, e_core_mask }
    }

    /// Builds the topology of a machine whose `count` logical processors are
    /// all treated as performance cores.
    pub fn all_cores(count: u32) -> (info: CoreInfo)
        requires
            count <= usize::BITS,
        ensures
            info.wf(),
            info.p_cores@ == first_cores(count as nat),
            info.e_cores@.len() == 0,
            info.total_cores == count,
            info.e_core_mask == 0,
    {
        let mut cores: Vec<u32> = Vec::new();
        let mut next: u32 = 0;
        while next < count
            invariant
                next <= count,
                cores@ == first_cores(next as nat),
            decreases count - next,
        {
            cores.push(next);
            next += 1;
            assert(cores@ =~= first_cores(next as nat));
        }
        let mask = Self::calculate_mask(&cores);
        CoreInfo {
            p_cores: cores,
            e_cores: Vec::new(),
            total_cores: count,
            p_core_mask: mask,
            e_core_mask: 0,
        }
    }

    /// Computes the affinity mask of a list of core indices.
    pub fn calculate_mask(cores: &Vec<u32>) -> (mask: usize)
        requires
            fits_mask(cores@),
        ensures
            mask == mask_of(cores@),
    {
        let mut mask: usize = 0;
        let mut i: usize = 0;
        while i < cores.len()
            invariant
                i <= cores.len(),
                fits_mask(cores@),
                mask == mask_of(cores@.take(i as int)),
            decreases cores.len() - i,
        {
            let core: u32 = cores[i];
            assert(cores@.take(i + 1).drop_last() == cores@.take(i as int));
            mask = mask | (1usize << core);
            i += 1;
        }
        assert(cores@.take(i as int) == cores@);
        mask
    }

    /// The topology in one line of text.
    pub open spec fn description(&self) -> Seq<char> {
        "CoreInfo { total: "@ + decimal_digits(self.total_cores as nat) + ", P-cores: "@
            + list_text(self.p_cores@) + " (mask: 0x"@ + upper_hex_digits(self.p_core_mask as nat)
            + "), E-cores: "@ + list_text(self.e_cores@) + " (mask: 0x"@ + upper_hex_digits(
            self.e_core_mask as nat,
        ) + ") }"@
    }

    /// Writes a list of indices as text.
    fn list_to_text(cores: &Vec<u32>) -> (text: String)
        ensures
            text@ == list_text(cores@),
    {
        let mut text = "[".to_owned();
        let mut i: usize = 0;
        while i < cores.len()
            invariant
                i <= cores.len(),
                text@ == "["@ + items_text(cores@.take(i as int)),
            decreases cores.len() - i,
        {
            proof {
                assert(cores@.take(i + 1).drop_last() == cores@.take(i as int));
                assert(cores@.take(i + 1).last() == cores@[i as int]);
                if i == 0 {
                    assert(cores@.take(1)[0] == cores@[0]);
                    assert(items_text(cores@.take(0)) =~= Seq::<char>::empty());
                }
            }
            if i > 0 {
                text.append(", ");
            }
            text.append(decimal(cores[i] as u64).as_str());
            i += 1;
            assert(text@ =~= "["@ + items_text(cores@.take(i as int)));
        }
        assert(cores@.take(i as int) == cores@);
        text.append("]");
        text
    }

    /// Describes the topology in one line of text.
    pub fn describe(&self) -> (text: String)
        ensures
            text@ == self.description(),
    {
        let mut text = "CoreInfo { total: ".to_owned();
        text.append(decimal(self.total_cores as u64).as_str());
        text.append(", P-cores: ");
        text.append(Self::list_to_text(&self.p_cores).as_str());
        text.append(" (mask: 0x");
        text.append(upper_hex(self.p_core_mask as u64).as_str());
        text.append("), E-cores: ");
        text.append(Self::list_to_text(&self.e_cores).as_str());
        text.append(" (mask: 0x");
        text.append(upper_hex(self.e_core_mask as u64).as_str());
        text.append(") }");
        text
    }

    /// Whether the machine has both performance and efficiency cores.
    pub fn has_hybrid_architecture(&self) -> (hybrid: bool)
        ensures
            hybrid == self.is_hybrid(),
    {
        !self.p_cores.is_empty() && !self.e_cores.is_empty()
    }
}

/// Setting one more bit in a mask sets that bit and leaves the others as
/// they were.
proof fn lemma_or_bit(mask: usize, added: u32, bit: u32)
    requires
        added < usize::BITS,
        bit < usize::BITS,
    ensures
        has_bit(mask | (1usize << added), bit) <==> has_bit(mask, bit) || bit == added,
{
    assert(((mask | (1usize << added)) & (1usize << bit) != 0) <==> ((mask & (1usize << bit) != 0)
        || bit == added)) by (bit_vector)
        requires
            added < usize::BITS,
            bit < usize::BITS,
    ;
}

/// A mask shares no bit with `mask | (1 << added)` when it shares none with
/// `mask` and lacks the added bit.
proof fn lemma_and_or_bit(left: usize, mask: usize, added: u32)
    requires
        added < usize::BITS,
        left & mask == 0,
        !has_bit(left, added),
    ensures
        left & (mask | (1usize << added)) == 0,
{
    assert(left & (mask | (1usize << added)) == 0) by (bit_vector)
        requires
            added < usize::BITS,
            left & mask == 0,
            left & (1usize << added) == 0,
    ;
}

/// A bit is set in the mask of a list exactly when the list holds its index.
pub proof fn lemma_mask_bits(cores: Seq<u32>, bit: u32)
    requires
        fits_mask(cores),
        bit < usize::BITS,
    ensures
        has_bit(mask_of(cores), bit) <==> cores.contains(bit),
    decreases cores.len(),
{
    if cores.len() == 0 {
        assert(0usize & (1usize << bit) == 0) by (bit_vector);
    } else {
        let rest = cores.drop_last();
        lemma_mask_bits(rest, bit);
        lemma_or_bit(mask_of(rest), cores.last(), bit);
        if cores.contains(bit) {
            let i = choose|i: int| 0 <= i < cores.len() && cores[i] == bit;
            if i < cores.len() - 1 {
                assert(rest[i] == bit);
            }
        }
        if rest.contains(bit) {
            let i = choose|i: int| 0 <= i < rest.len() && rest[i] == bit;
            assert(cores[i] == bit);
        }
        if bit == cores.last() {
            assert(cores[cores.len() - 1] == bit);
        }
    }
}

/// The masks of two lists that share no index share no bit.
pub proof fn lemma_disjoint_masks(p: Seq<u32>, e: Seq<u32>)
    requires
        fits_mask(p),
        fits_mask(e),
        disjoint_cores(p, e),
    ensures
        mask_of(p) & mask_of(e) == 0,
    decreases e.len(),
{
    if e.len() == 0 {
        let m = mask_of(p);
        assert(m & 0usize == 0) by (bit_vector);
    } else {
        let rest = e.drop_last();
        assert forall|i: int, j: int| 0 <= i < p.len() && 0 <= j < rest.len() implies p[i]
            != rest[j] by {
            assert(rest[j] == e[j]);
        }
        lemma_disjoint_masks(p, rest);
        lemma_mask_bits(p, e.last());
        if p.contains(e.last()) {
            let i = choose|i: int| 0 <= i < p.len() && p[i] == e.last();
            assert(p[i] != e[e.len() - 1]);
        }
        lemma_and_or_bit(mask_of(p), mask_of(rest), e.last());
    }
}

/// The topology built from a non-empty list of performance cores and a list
/// of efficiency cores that shares no index with it: the performance mask is
/// the OR of `1 << i` over the performance cores, it has exactly their bits
/// set, it shares no bit with the efficiency mask, and the machine counts as
/// hybrid exactly when there is an efficiency core.
pub proof fn lemma_topology_of_disjoint_lists(info: CoreInfo)
    requires
        info.wf(),
        info.p_cores@.len() > 0,
        disjoint_cores(info.p_cores@, info.e_cores@),
    ensures
        info.p_core_mask == mask_of(info.p_cores@),
        forall|bit: u32|
            bit < usize::BITS ==> (#[trigger] has_bit(info.p_core_mask, bit)
                <==> info.p_cores@.contains(bit)),
        info.p_core_mask & info.e_core_mask == 0,
        info.is_hybrid() <==> info.e_cores@.len() > 0,
{
    assert forall|bit: u32| bit < usize::BITS implies (#[trigger] has_bit(info.p_core_mask, bit)
        <==> info.p_cores@.contains(bit)) by {
        lemma_mask_bits(info.p_cores@, bit);
    }
    lemma_disjoint_masks(info.p_cores@, info.e_cores@);
}

/// When every processor counts as a performance core, the performance mask
/// has exactly the bits below the processor count set: it is the mask of the
/// whole machine.
pub proof fn lemma_all_cores_mask(count: u32, bit: u32)
    requires
        count <= usize::BITS,
        bit < usize::BITS,
    ensures
        has_bit(mask_of(first_cores(count as nat)), bit) <==> bit < count,
{
    let cores = first_cores(count as nat);
    lemma_mask_bits(cores, bit);
    if bit < count {
        assert(cores[bit as int] == bit);
    }
}

} // verus!
