//! Finding the core topology: from the configuration, from what the system
//! reports of each core, or by taking every processor as a performance core.

use vstd::prelude::*;
use std::sync::Arc;
use crate::cpu::types::{disjoint_cores, first_cores, fits_mask, CoreInfo, CoreType, DetectionMode};
use crate::utils::ServiceError;

verus! {

/// The relationship value that marks a record as describing a processor
/// core.
pub const RELATION_PROCESSOR_CORE: i32 = 0;

/// The number of logical processors that one group mask can name.
pub const GROUP_MASK_BITS: u32 = 64;

/// One record of the system's logical-processor information.
#[derive(Debug, Clone, Copy)]
pub struct ProcessorRecord {
    /// What the record describes.
    pub relationship: i32,
    /// The efficiency class of the core: 1 for a performance core.
    pub efficiency_class: u8,
    /// The logical processors of the core, one bit each.
    pub group_mask: u64,
}

/// What came of asking the system for its logical-processor information.
#[derive(Debug, Clone)]
pub enum NativeQuery {
    /// The system named no buffer size.
    NoBufferSize,
    /// The system did not fill the buffer.
    QueryFailed,
    /// The records that the system wrote, in order.
    Records(Vec<ProcessorRecord>),
}

/// What the machine reports of its processors.
#[derive(Debug, Clone)]
pub struct SystemProbe {
    /// The per-core information.
    pub native: NativeQuery,
    /// The number of logical processors.
    pub processor_count: u32,
}

/// The class of a core with the given efficiency class.
pub open spec fn core_type_of(efficiency_class: u8) -> CoreType {
    if efficiency_class == 1 {
        CoreType::Performance
    } else {
        CoreType::Efficient
    }
}

/// The number of bits set among the lowest `bits` bits of a mask.
pub open spec fn count_bits(mask: u64, bits: nat) -> nat
    decreases bits,
{
    if bits == 0 {
        0
    } else {
        count_bits(mask, (bits - 1) as nat) + if mask & (1u64 << ((bits - 1) as u32)) != 0 {
            1nat
        } else {
            0nat
        }
    }
}

/// The classes of the logical processors that one record names: one entry
/// for each bit of the group mask of a core record, none for other records.
pub open spec fn record_classes(record: ProcessorRecord) -> Seq<CoreType> {
    if record.relationship == RELATION_PROCESSOR_CORE {
        Seq::new(
            count_bits(record.group_mask, GROUP_MASK_BITS as nat),
            |i: int| core_type_of(record.efficiency_class),
        )
    } else {
        Seq::empty()
    }
}

/// The class of every logical processor, by index: processors are numbered
/// in the order of the records and, within a record, of the bits.
pub open spec fn processor_classes(records: Seq<ProcessorRecord>) -> Seq<CoreType>
    decreases records.len(),
{
    if records.len() == 0 {
        Seq::empty()
    } else {
        processor_classes(records.drop_last()) + record_classes(records.last())
    }
}

/// The indices of the processors of one class, in ascending order.
pub open spec fn cores_of(classes: Seq<CoreType>, wanted: CoreType) -> Seq<u32>
    decreases classes.len(),
{
    if classes.len() == 0 {
        Seq::empty()
    } else if classes.last() == wanted {
        cores_of(classes.drop_last(), wanted).push((classes.len() - 1) as u32)
    } else {
        cores_of(classes.drop_last(), wanted)
    }
}

/// The two core lists that the system's information amounts to, or the
/// detail of the error. Where the system reports no performance core, the
/// cores it reports all count as performance cores.
pub open spec fn native_detection(query: NativeQuery) -> Result<(Seq<u32>, Seq<u32>), Seq<char>> {
    match query {
        NativeQuery::NoBufferSize => Err("Failed to get processor information buffer size"@),
        NativeQuery::QueryFailed => Err("Failed to get processor information"@),
        NativeQuery::Records(records) => {
            let classes = processor_classes(records@);
            let p = cores_of(classes, CoreType::Performance);
            let e = cores_of(classes, CoreType::Efficient);
            if p.len() == 0 && e.len() == 0 {
                Err("No cores detected"@)
            } else if p.len() == 0 {
                Ok((e, Seq::empty()))
            } else {
                Ok((p, e))
            }
        },
    }
}

/// The two core lists that detection yields in each mode, or the detail of
/// the error. Automatic detection falls back on taking every processor as a
/// performance core when the system's information leads nowhere.
pub open spec fn detection(
    mode: DetectionMode,
    p_cores: Seq<u32>,
    e_cores: Seq<u32>,
    probe: SystemProbe,
) -> Result<(Seq<u32>, Seq<u32>), Seq<char>> {
    match mode {
        DetectionMode::Manual => if p_cores.len() == 0 {
            Err("Manual mode requires at least P-cores to be specified"@)
        } else {
            Ok((p_cores, e_cores))
        },
        DetectionMode::AllCores => Ok((first_cores(probe.processor_count as nat), Seq::empty())),
        DetectionMode::Auto => match native_detection(probe.native) {
            Ok(lists) => Ok(lists),
            Err(_) => Ok((first_cores(probe.processor_count as nat), Seq::empty())),
        },
    }
}

/// Whether the system's information names no more processors than an
/// affinity mask has bits.
pub open spec fn native_fits(query: NativeQuery) -> bool {
    query matches NativeQuery::Records(records) ==> processor_classes(records@).len()
        <= usize::BITS
}

/// Whether every core that detection can come upon, in the given mode, has a
/// bit in an affinity mask. Manual detection without performance cores comes
/// upon none, and automatic detection counts the processors only where the
/// system's information leads nowhere.
pub open spec fn detectable(
    mode: DetectionMode,
    p_cores: Seq<u32>,
    e_cores: Seq<u32>,
    probe: SystemProbe,
) -> bool {
    match mode {
        DetectionMode::Manual => p_cores.len() == 0 || (fits_mask(p_cores) && fits_mask(e_cores)
            && p_cores.len() + e_cores.len() <= u32::MAX),
        DetectionMode::AllCores => probe.processor_count <= usize::BITS,
        DetectionMode::Auto => native_fits(probe.native) && (native_detection(probe.native) is Err
            ==> probe.processor_count <= usize::BITS),
    }
}

/// Counting the bits of a longer prefix of a mask finds no fewer.
proof fn lemma_count_bits_monotonic(mask: u64, low: nat, high: nat)
    requires
        low <= high,
    ensures
        count_bits(mask, low) <= count_bits(mask, high) <= high,
    decreases high,
{
    if low < high {
        lemma_count_bits_monotonic(mask, low, (high - 1) as nat);
    } else if high > 0 {
        lemma_count_bits_monotonic(mask, (low - 1) as nat, (high - 1) as nat);
    }
}

/// The processors of a prefix of the records are the first of the processors
/// of all records.
proof fn lemma_classes_of_prefix(records: Seq<ProcessorRecord>, n: int)
    requires
        0 <= n <= records.len(),
    ensures
        processor_classes(records.take(n)).len() <= processor_classes(records).len(),
        n < records.len() ==> processor_classes(records.take(n)).len() + record_classes(
            records[n],
        ).len() <= processor_classes(records).len(),
    decreases records.len() - n,
{
    if n == records.len() {
        assert(records.take(n) == records);
    } else {
        lemma_classes_of_prefix(records, n + 1);
        assert(records.take(n + 1).drop_last() == records.take(n));
    }
}

/// Every processor that the system reports is either a performance or an
/// efficiency core, so the two lists hold as many cores as there are
/// processors.
proof fn lemma_classes_are_split(records: Seq<ProcessorRecord>)
    ensures
        forall|i: int|
            0 <= i < processor_classes(records).len() ==> (#[trigger] processor_classes(records)[i])
                != CoreType::Unknown,
        cores_of(processor_classes(records), CoreType::Performance).len() + cores_of(
            processor_classes(records),
            CoreType::Efficient,
        ).len() == processor_classes(records).len(),
    decreases records.len(),
{
    let classes = processor_classes(records);
    if records.len() > 0 {
        let rest = processor_classes(records.drop_last());
        lemma_classes_are_split(records.drop_last());
        assert forall|i: int| 0 <= i < classes.len() implies (#[trigger] classes[i])
            != CoreType::Unknown by {
            if i < rest.len() {
                assert(classes[i] == rest[i]);
            }
        }
    }
    lemma_cores_are_split(classes);
}

/// Where every class is performance or efficiency, the two lists of cores
/// hold as many cores as there are classes.
proof fn lemma_cores_are_split(classes: Seq<CoreType>)
    requires
        forall|i: int| 0 <= i < classes.len() ==> (#[trigger] classes[i]) != CoreType::Unknown,
    ensures
        cores_of(classes, CoreType::Performance).len() + cores_of(classes, CoreType::Efficient).len()
            == classes.len(),
    decreases classes.len(),
{
    if classes.len() > 0 {
        let rest = classes.drop_last();
        assert forall|i: int| 0 <= i < rest.len() implies (#[trigger] rest[i])
            != CoreType::Unknown by {
            assert(rest[i] == classes[i]);
        }
        lemma_cores_are_split(rest);
        assert(classes.last() == classes[classes.len() - 1]);
    }
}

/// The list of the cores of a class holds exactly the indices of that
/// class, in strictly ascending order.
pub proof fn lemma_cores_of(classes: Seq<CoreType>, wanted: CoreType)
    requires
        classes.len() <= u32::MAX,
    ensures
        cores_of(classes, wanted).len() <= classes.len(),
        forall|k: int|
            0 <= k < cores_of(classes, wanted).len() ==> {
                &&& (#[trigger] cores_of(classes, wanted)[k]) < classes.len()
                &&& classes[cores_of(classes, wanted)[k] as int] == wanted
            },
        forall|j: int, k: int|
            0 <= j < k < cores_of(classes, wanted).len() ==> cores_of(classes, wanted)[j]
                < cores_of(classes, wanted)[k],
        forall|i: int|
            0 <= i < classes.len() && classes[i] == wanted ==> cores_of(classes, wanted).contains(
                i as u32,
            ),
    decreases classes.len(),
{
    if classes.len() > 0 {
        let rest = classes.drop_last();
        let inner = cores_of(rest, wanted);
        let whole = cores_of(classes, wanted);
        lemma_cores_of(rest, wanted);
        assert forall|k: int| 0 <= k < whole.len() implies {
            &&& (#[trigger] whole[k]) < classes.len()
            &&& classes[whole[k] as int] == wanted
        } by {
            if k < inner.len() {
                assert(whole[k] == inner[k]);
                assert(rest[inner[k] as int] == classes[inner[k] as int]);
            }
        }
        assert forall|j: int, k: int| 0 <= j < k < whole.len() implies whole[j] < whole[k] by {
            assert(whole[j] == inner[j]);
            if k < inner.len() {
                assert(whole[k] == inner[k]);
            }
        }
        assert forall|i: int| 0 <= i < classes.len() && classes[i] == wanted implies whole.contains(
            i as u32,
        ) by {
            if i < rest.len() {
                assert(rest[i] == classes[i]);
                assert(inner.contains(i as u32));
                let k = choose|k: int| 0 <= k < inner.len() && inner[k] == i as u32;
                assert(whole[k] == i as u32);
            } else {
                assert(whole[whole.len() - 1] == i as u32);
            }
        }
    }
}

/// The lists of performance and efficiency cores that the system's
/// information amounts to share no core, and every core in them has a bit in
/// an affinity mask.
pub proof fn lemma_native_detection_disjoint(query: NativeQuery)
    requires
        native_fits(query),
    ensures
        native_detection(query) matches Ok(lists) ==> {
            &&& lists.0.len() > 0
            &&& disjoint_cores(lists.0, lists.1)
            &&& fits_mask(lists.0)
            &&& fits_mask(lists.1)
            &&& lists.0.len() + lists.1.len() <= usize::BITS
        },
{
    if let NativeQuery::Records(records) = query {
        let classes = processor_classes(records@);
        let p = cores_of(classes, CoreType::Performance);
        let e = cores_of(classes, CoreType::Efficient);
        lemma_cores_of(classes, CoreType::Performance);
        lemma_cores_of(classes, CoreType::Efficient);
        assert forall|i: int, j: int| 0 <= i < p.len() && 0 <= j < e.len() implies p[i] != e[j] by {
            assert(classes[p[i] as int] == CoreType::Performance);
            assert(classes[e[j] as int] == CoreType::Efficient);
        }
        lemma_strictly_ascending_is_short(p, classes.len());
        lemma_strictly_ascending_is_short(e, classes.len());
        if p.len() > 0 && e.len() > 0 {
            lemma_disjoint_ascending_are_short(p, e, classes.len());
        }
    }
}

/// A strictly ascending list of indices below `bound` has at most `bound`
/// entries.
proof fn lemma_strictly_ascending_is_short(cores: Seq<u32>, bound: nat)
    requires
        forall|k: int| 0 <= k < cores.len() ==> (#[trigger] cores[k]) < bound,
        forall|j: int, k: int| 0 <= j < k < cores.len() ==> cores[j] < cores[k],
    ensures
        cores.len() <= bound,
        forall|k: int| 0 <= k < cores.len() ==> k <= #[trigger] cores[k],
    decreases cores.len(),
{
    if cores.len() > 0 {
        let rest = cores.drop_last();
        lemma_strictly_ascending_is_short(rest, bound);
        if rest.len() > 0 {
            assert(rest[rest.len() - 1] == cores[cores.len() - 2]);
            assert(cores[cores.len() - 2] < cores[cores.len() - 1]);
        }
        assert forall|k: int| 0 <= k < cores.len() implies k <= #[trigger] cores[k] by {
            if k < rest.len() {
                assert(rest[k] == cores[k]);
            }
        }
        assert(cores[cores.len() - 1] < bound);
    }
}

/// Two strictly ascending lists of indices below `bound` that share no index
/// have at most `bound` entries together.
proof fn lemma_disjoint_ascending_are_short(p: Seq<u32>, e: Seq<u32>, bound: nat)
    requires
        forall|k: int| 0 <= k < p.len() ==> (#[trigger] p[k]) < bound,
        forall|k: int| 0 <= k < e.len() ==> (#[trigger] e[k]) < bound,
        forall|j: int, k: int| 0 <= j < k < p.len() ==> p[j] < p[k],
        forall|j: int, k: int| 0 <= j < k < e.len() ==> e[j] < e[k],
        disjoint_cores(p, e),
    ensures
        p.len() + e.len() <= bound,
    decreases bound,
{
    if bound == 0 {
        if p.len() > 0 {
            assert(p[0] < bound);
        }
        if e.len() > 0 {
            assert(e[0] < bound);
        }
    } else if p.len() > 0 && p.last() == bound - 1 {
        let rest = p.drop_last();
        assert forall|k: int| 0 <= k < rest.len() implies (#[trigger] rest[k]) < bound - 1 by {
            assert(rest[k] == p[k]);
            assert(p[k] < p[p.len() - 1]);
        }
        assert forall|k: int| 0 <= k < e.len() implies (#[trigger] e[k]) < bound - 1 by {
            assert(p[p.len() - 1] != e[k]);
        }
        assert forall|i: int, j: int| 0 <= i < rest.len() && 0 <= j < e.len() implies rest[i]
            != e[j] by {
            assert(rest[i] == p[i]);
        }
        lemma_disjoint_ascending_are_short(rest, e, (bound - 1) as nat);
    } else if e.len() > 0 && e.last() == bound - 1 {
        let rest = e.drop_last();
        assert forall|k: int| 0 <= k < rest.len() implies (#[trigger] rest[k]) < bound - 1 by {
            assert(rest[k] == e[k]);
            assert(e[k] < e[e.len() - 1]);
        }
        assert forall|k: int| 0 <= k < p.len() implies (#[trigger] p[k]) < bound - 1 by {
            assert(p[k] != e[e.len() - 1]);
        }
        assert forall|i: int, j: int| 0 <= i < p.len() && 0 <= j < rest.len() implies p[i]
            != rest[j] by {
            assert(rest[j] == e[j]);
        }
        lemma_disjoint_ascending_are_short(p, rest, (bound - 1) as nat);
    } else {
        assert forall|k: int| 0 <= k < p.len() implies (#[trigger] p[k]) < bound - 1 by {
            if p[k] == bound - 1 {
                if k < p.len() - 1 {
                    assert(p[k] < p[p.len() - 1]);
                }
            }
        }
        assert forall|k: int| 0 <= k < e.len() implies (#[trigger] e[k]) < bound - 1 by {
            if e[k] == bound - 1 {
                if k < e.len() - 1 {
                    assert(e[k] < e[e.len() - 1]);
                }
            }
        }
        lemma_disjoint_ascending_are_short(p, e, (bound - 1) as nat);
    }
}

/// Finds the core topology.
pub struct CpuDetector;

impl CpuDetector {
    /// Whether detection can run on these inputs: whether every core that it
    /// can come upon has a bit in an affinity mask.
    pub fn can_detect(
        mode: DetectionMode,
        p_cores: &Vec<u32>,
        e_cores: &Vec<u32>,
        probe: &SystemProbe,
    ) -> (ok: bool)
        ensures
            ok == detectable(mode, p_cores@, e_cores@, *probe),
    {
        match mode {
            DetectionMode::Manual => {
                let limit: usize = 0xFFFF_FFFF;
                p_cores.is_empty() || (Self::all_fit(p_cores) && Self::all_fit(e_cores)
                    && p_cores.len() <= limit && e_cores.len() <= limit - p_cores.len())
            },
            DetectionMode::AllCores => probe.processor_count <= usize::BITS,
            DetectionMode::Auto => match Self::count_native_processors(&probe.native) {
                Some(total) => total > 0 || probe.processor_count <= usize::BITS,
                None => false,
            },
        }
    }

    /// Whether every index of the list names a bit of an affinity mask.
    fn all_fit(cores: &Vec<u32>) -> (ok: bool)
        ensures
            ok == fits_mask(cores@),
    {
        let mut i: usize = 0;
        while i < cores.len()
            invariant
                i <= cores.len(),
                forall|k: int| 0 <= k < i ==> cores@[k] < usize::BITS,
            decreases cores.len() - i,
        {
            if cores[i] >= usize::BITS {
                return false;
            }
            i += 1;
        }
        true
    }

    /// The number of bits set in a group mask.
    fn count_processors(mask: u64) -> (count: u32)
        ensures
            count == count_bits(mask, GROUP_MASK_BITS as nat),
    {
        let mut count: u32 = 0;
        let mut bit: u32 = 0;
        while bit < GROUP_MASK_BITS
            invariant
                bit <= GROUP_MASK_BITS,
                count == count_bits(mask, bit as nat),
                count <= bit,
            decreases GROUP_MASK_BITS - bit,
        {
            if mask & (1u64 << bit) != 0 {
                count += 1;
            }
            bit += 1;
        }
        count
    }

    /// The number of processors that the system's information names, unless
    /// they are more than an affinity mask has bits.
    fn count_native_processors(query: &NativeQuery) -> (total: Option<u32>)
        ensures
            total is Some <==> native_fits(*query),
            total matches Some(count) ==> (count > 0 <==> native_detection(*query) is Ok),
    {
        let records = match query {
            NativeQuery::Records(records) => records,
            _ => {
                return Some(0);
            },
        };
        let mut total: u32 = 0;
        let mut i: usize = 0;
        while i < records.len()
            invariant
                i <= records.len(),
                *query == NativeQuery::Records(*records),
                total == processor_classes(records@.take(i as int)).len(),
                total <= usize::BITS,
            decreases records.len() - i,
        {
            let record = records[i];
            proof {
                assert(records@.take(i + 1).drop_last() == records@.take(i as int));
                lemma_classes_of_prefix(records@, i as int);
                assert(records@.take(i + 1).last() == records@[i as int]);
                lemma_count_bits_monotonic(
                    record.group_mask,
                    GROUP_MASK_BITS as nat,
                    GROUP_MASK_BITS as nat,
                );
            }
            if record.relationship == RELATION_PROCESSOR_CORE {
                let more = Self::count_processors(record.group_mask);
                if more > usize::BITS - total {
                    return None;
                }
                total += more;
            }
            i += 1;
        }
        proof {
            assert(records@.take(i as int) == records@);
            lemma_classes_are_split(records@);
        }
        Some(total)
    }

    /// Detects the topology in the given mode, from the configured lists and
    /// from what the machine reports.
    pub fn detect(mode: DetectionMode, p_cores: Vec<u32>, e_cores: Vec<u32>, probe: &SystemProbe)
        -> (result: Result<Arc<CoreInfo>, ServiceError>)
        requires
            detectable(mode, p_cores@, e_cores@, *probe),
        ensures
            match detection(mode, p_cores@, e_cores@, *probe) {
                Ok(lists) => result is Ok && result->Ok_0.wf() && result->Ok_0.p_cores@ == lists.0
                    && result->Ok_0.e_cores@ == lists.1,
                Err(detail) => result is Err && result->Err_0 is CpuDetection
                    && result->Err_0.detail() == detail,
            },
    {
        match mode {
            DetectionMode::Auto => Self::detect_auto(probe),
            DetectionMode::Manual => Self::detect_manual(p_cores, e_cores),
            DetectionMode::AllCores => Ok(Self::detect_all_cores(probe.processor_count)),
        }
    }

    /// Detects the topology from the system's per-core information, and
    /// falls back on taking every processor as a performance core.
    pub fn detect_auto(probe: &SystemProbe) -> (result: Result<Arc<CoreInfo>, ServiceError>)
        requires
            native_fits(probe.native),
            native_detection(probe.native) is Err ==> probe.processor_count <= usize::BITS,
        ensures
            result is Ok,
            result->Ok_0.wf(),
            match native_detection(probe.native) {
                Ok(lists) => result->Ok_0.p_cores@ == lists.0 && result->Ok_0.e_cores@ == lists.1,
                Err(_) => result->Ok_0.p_cores@ == first_cores(probe.processor_count as nat)
                    && result->Ok_0.e_cores@.len() == 0,
            },
    {
        match Self::detect_via_windows_api(&probe.native) {
            Ok(info) => Ok(info),
            Err(_) => Ok(Self::detect_all_cores(probe.processor_count)),
        }
    }

    /// Sorts the logical processors that the system reports into performance
    /// and efficiency cores.
    pub fn detect_via_windows_api(query: &NativeQuery) -> (result: Result<
        Arc<CoreInfo>,
        ServiceError,
    >)
        requires
            native_fits(*query),
        ensures
            match native_detection(*query) {
                Ok(lists) => result is Ok && result->Ok_0.wf() && result->Ok_0.p_cores@ == lists.0
                    && result->Ok_0.e_cores@ == lists.1 && disjoint_cores(lists.0, lists.1),
                Err(detail) => result is Err && result->Err_0 is CpuDetection
                    && result->Err_0.detail() == detail,
            },
    {
        let records = match query {
            NativeQuery::NoBufferSize => {
                return Err(
                    ServiceError::CpuDetection(
                        "Failed to get processor information buffer size".to_string(),
                    ),
                );
            },
            NativeQuery::QueryFailed => {
                return Err(
                    ServiceError::CpuDetection("Failed to get processor information".to_string()),
                );
            },
            NativeQuery::Records(records) => records,
        };
        let ghost all = processor_classes(records@);
        let mut p_cores: Vec<u32> = Vec::new();
        let mut e_cores: Vec<u32> = Vec::new();
        let mut core_index: u32 = 0;
        let mut i: usize = 0;
        while i < records.len()
            invariant
                i <= records.len(),
                all == processor_classes(records@),
                all.len() <= usize::BITS,
                core_index == processor_classes(records@.take(i as int)).len(),
                p_cores@ == cores_of(
                    processor_classes(records@.take(i as int)),
                    CoreType::Performance,
                ),
                e_cores@ == cores_of(processor_classes(records@.take(i as int)), CoreType::Efficient),
            decreases records.len() - i,
        {
            let record = records[i];
            let ghost done = processor_classes(records@.take(i as int));
            proof {
                assert(records@.take(i + 1).drop_last() == records@.take(i as int));
                lemma_classes_of_prefix(records@, i as int);
            }
            if record.relationship == RELATION_PROCESSOR_CORE {
                let mask = record.group_mask;
                let ghost class = core_type_of(record.efficiency_class);
                let mut bit: u32 = 0;
                while bit < GROUP_MASK_BITS
                    invariant
                        bit <= GROUP_MASK_BITS,
                        all.len() <= usize::BITS,
                        record.relationship == RELATION_PROCESSOR_CORE,
                        mask == record.group_mask,
                        class == core_type_of(record.efficiency_class),
                        done.len() + record_classes(record).len() <= all.len(),
                        core_index == done.len() + count_bits(mask, bit as nat),
                        p_cores@ == cores_of(
                            done + Seq::new(count_bits(mask, bit as nat), |k: int| class),
                            CoreType::Performance,
                        ),
                        e_cores@ == cores_of(
                            done + Seq::new(count_bits(mask, bit as nat), |k: int| class),
                            CoreType::Efficient,
                        ),
                    decreases GROUP_MASK_BITS - bit,
                {
                    let ghost so_far = done + Seq::new(count_bits(mask, bit as nat), |k: int| class);
                    proof {
                        lemma_count_bits_monotonic(mask, (bit + 1) as nat, GROUP_MASK_BITS as nat);
                    }
                    if mask & (1u64 << bit) != 0 {
                        proof {
                            let longer = done + Seq::new(
                                count_bits(mask, (bit + 1) as nat),
                                |k: int| class,
                            );
                            assert(longer =~= so_far.push(class));
                            assert(longer.drop_last() =~= so_far);
                        }
                        if record.efficiency_class == 1 {
                            p_cores.push(core_index);
                        } else {
                            e_cores.push(core_index);
                        }
                        core_index += 1;
                    }
                    bit += 1;
                }
            } else {
                assert(done + Seq::<CoreType>::empty() =~= done);
            }
            i += 1;
        }
        proof {
            assert(records@.take(i as int) == records@);
            lemma_native_detection_disjoint(*query);
            lemma_cores_of(all, CoreType::Performance);
            lemma_cores_of(all, CoreType::Efficient);
        }
        if p_cores.is_empty() && e_cores.is_empty() {
            return Err(ServiceError::CpuDetection("No cores detected".to_string()));
        }
        if p_cores.is_empty() {
            p_cores = e_cores;
            e_cores = Vec::new();
        }
        Ok(Arc::new(CoreInfo::new(p_cores, e_cores)))
    }

    /// Takes the configured lists as the topology. The list of performance
    /// cores must not be empty.
    pub fn detect_manual(p_cores: Vec<u32>, e_cores: Vec<u32>) -> (result: Result<
        Arc<CoreInfo>,
        ServiceError,
    >)
        requires
            p_cores@.len() > 0 ==> fits_mask(p_cores@) && fits_mask(e_cores@) && p_cores@.len()
                + e_cores@.len() <= u32::MAX,
        ensures
            p_cores@.len() > 0 ==> result is Ok && result->Ok_0.wf() && result->Ok_0.p_cores@
                == p_cores@ && result->Ok_0.e_cores@ == e_cores@,
            p_cores@.len() == 0 ==> result is Err && result->Err_0 is CpuDetection
                && result->Err_0.detail()
                == "Manual mode requires at least P-cores to be specified"@,
    {
        if p_cores.is_empty() {
            return Err(
                ServiceError::CpuDetection(
                    "Manual mode requires at least P-cores to be specified".to_string(),
                ),
            );
        }
        Ok(Arc::new(CoreInfo::new(p_cores, e_cores)))
    }

    /// Takes each of the machine's logical processors as a performance core.
    pub fn detect_all_cores(processor_count: u32) -> (info: Arc<CoreInfo>)
        requires
            processor_count <= usize::BITS,
        ensures
            info.wf(),
            info.p_cores@ == first_cores(processor_count as nat),
            info.e_cores@.len() == 0,
            info.total_cores == processor_count,
    {
        Arc::new(CoreInfo::all_cores(processor_count))
    }
}

} // verus!
