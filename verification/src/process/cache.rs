//! The memory of processes: which have been seen, which are done with, and
//! when each was last touched, so that stale entries can be forgotten.

use vstd::prelude::*;
use std::collections::{HashMap, HashSet};
use std::time::Instant;
use vstd::std_specs::iter::IteratorSpec;

verus! {

broadcast use vstd::std_specs::hash::group_hash_axioms;

/// Nanoseconds in a second.
pub const NANOS_PER_SEC: u128 = 1_000_000_000;

/// A point of the monotonic clock of the standard library.
#[verifier::external_type_specification]
#[verifier::external_body]
pub struct ExInstant(Instant);

/// What the memory holds of one process, as a mathematical value. Times are
/// nanoseconds on the cache's own monotonic clock.
pub ghost struct CacheEntry {
    pub name: Seq<char>,
    pub last_seen: nat,
    pub handled: bool,
}

/// What the memory holds of one process apart from the time it was last
/// touched.
pub ghost struct Remembered {
    pub name: Seq<char>,
    pub handled: bool,
}

/// A memory without its times.
pub open spec fn untimed(memory: Map<u32, CacheEntry>) -> Map<u32, Remembered> {
    Map::new(
        |pid: u32| memory.contains_key(pid),
        |pid: u32| Remembered { name: memory[pid].name, handled: memory[pid].handled },
    )
}

/// The time between `last_seen` and `now`; zero when `now` is the earlier.
pub open spec fn age(now: nat, last_seen: nat) -> nat {
    if now >= last_seen {
        (now - last_seen) as nat
    } else {
        0
    }
}

/// Whether an entry has reached the age at which it is forgotten.
pub open spec fn is_stale(entry: CacheEntry, now: nat, max_age: nat) -> bool {
    age(now, entry.last_seen) >= max_age
}

/// The pids of a memory that are marked as done with.
pub open spec fn handled_pids(memory: Map<u32, CacheEntry>) -> Set<u32> {
    Set::new(|pid: u32| memory.contains_key(pid) && memory[pid].handled)
}

/// The pids of a memory whose entries are stale at `now`.
pub open spec fn stale_pids(memory: Map<u32, CacheEntry>, now: nat, max_age: nat) -> Set<u32> {
    Set::new(|pid: u32| memory.contains_key(pid) && is_stale(memory[pid], now, max_age))
}

/// The memory after `pid` was seen at `now` under `name`: its entry is
/// created or refreshed, and whether it is done with stays as it was.
pub open spec fn seen(memory: Map<u32, CacheEntry>, pid: u32, name: Seq<char>, now: nat) -> Map<
    u32,
    CacheEntry,
> {
    memory.insert(
        pid,
        CacheEntry { name, last_seen: now, handled: memory.contains_key(pid) && memory[pid].handled },
    )
}

/// The memory after `pid` was marked as done with at `now`; an entry that was
/// missing is created with an empty name.
pub open spec fn handled(memory: Map<u32, CacheEntry>, pid: u32, now: nat) -> Map<u32, CacheEntry> {
    memory.insert(
        pid,
        CacheEntry {
            name: if memory.contains_key(pid) {
                memory[pid].name
            } else {
                Seq::empty()
            },
            last_seen: now,
            handled: true,
        },
    )
}

/// The memory after every entry that is stale at `now` was forgotten.
pub open spec fn evicted(memory: Map<u32, CacheEntry>, now: nat, max_age: nat) -> Map<
    u32,
    CacheEntry,
> {
    memory.remove_keys(stale_pids(memory, now, max_age))
}

#[derive(Debug)]
#[allow(dead_code)]
struct ProcessEntry {
    pid: u32,
    name: String,
    last_seen: u128,
    processed: bool,
}

impl ProcessEntry {
    spec fn model(self) -> CacheEntry {
        CacheEntry { name: self.name@, last_seen: self.last_seen as nat, handled: self.processed }
    }
}

/// Counts of the memory at one moment.
#[derive(Debug)]
pub struct CacheStats {
    pub total_entries: usize,
    pub processed_count: usize,
    pub unprocessed_count: usize,
}

/// Remembers the processes that were seen and those that are done with, and
/// forgets entries that have not been touched for `max_age`.
pub struct ProcessCache {
    processes: HashMap<u32, ProcessEntry>,
    processed_pids: HashSet<u32>,
    max_age: u128,
    started: Instant,
}

/// Reads the monotonic clock with `Instant::now`. Trusted; nothing is claimed
/// of the instant returned.
#[verifier::external_body]
fn clock_start() -> Instant {
    Instant::now()
}

/// Reads with `Instant::elapsed` how long ago `started` was, in nanoseconds.
/// Trusted; nothing is claimed of the time returned.
#[verifier::external_body]
fn clock_nanos(started: &Instant) -> u128 {
    started.elapsed().as_nanos()
}

impl View for ProcessCache {
    type V = Map<u32, CacheEntry>;

    closed spec fn view(&self) -> Map<u32, CacheEntry> {
        Map::new(
            |pid: u32| self.processes@.contains_key(pid),
            |pid: u32| self.processes@[pid].model(),
        )
    }
}

impl ProcessCache {
    /// The two indexes agree: a pid is in the index of processes done with
    /// exactly when it has an entry that is marked so.
    pub closed spec fn wf(&self) -> bool {
        &&& forall|pid: u32| #[trigger]
            self.processes@.contains_key(pid) ==> self.processes@[pid].pid == pid
        &&& forall|pid: u32| #[trigger]
            self.processed_pids@.contains(pid) <==> self.processes@.contains_key(pid)
                && self.processes@[pid].processed
    }

    /// The age, in nanoseconds, at which an entry is forgotten.
    pub closed spec fn max_age(&self) -> nat {
        self.max_age as nat
    }

    /// A consistent memory is finite, and its pids done with are among its
    /// entries.
    pub proof fn lemma_wf(&self)
        requires
            self.wf(),
        ensures
            self@.dom().finite(),
            handled_pids(self@).finite(),
            handled_pids(self@).subset_of(self@.dom()),
            handled_pids(self@).len() <= self@.dom().len(),
    {
        assert(self@.dom() =~= self.processes@.dom());
        assert(handled_pids(self@).subset_of(self@.dom()));
        vstd::set_lib::lemma_len_subset(handled_pids(self@), self@.dom());
    }

    /// An empty memory that forgets entries after `cleanup_interval_secs`
    /// seconds.
    pub fn new(cleanup_interval_secs: u64) -> (cache: ProcessCache)
        ensures
            cache.wf(),
            cache@ == Map::<u32, CacheEntry>::empty(),
            cache.max_age() == cleanup_interval_secs * NANOS_PER_SEC,
    {
        let max_age: u128 = (cleanup_interval_secs as u128) * NANOS_PER_SEC;
        let cache = ProcessCache {
            processes: HashMap::new(),
            processed_pids: HashSet::new(),
            max_age,
            started: clock_start(),
        };
        assert(cache@ =~= Map::<u32, CacheEntry>::empty());
        cache
    }

    /// The pids that have an entry, each once.
    fn remembered_pids(&self) -> (pids: Vec<u32>)
        ensures
            pids@.no_duplicates(),
            pids@.to_set() == self@.dom(),
    {
        let ghost all = vstd::std_specs::hash::spec_keys_iter(&self.processes).remaining();
        let mut pids: Vec<u32> = Vec::new();
        for pid in iter: self.processes.keys()
            invariant
                iter.seq() == all,
                pids@.len() == iter.index(),
                pids@ == all.unref().take(pids@.len() as int),
                iter.index() == iter.seq().len() ==> pids@.len() == all.len(),
        {
            pids.push(*pid);
            assert(pids@ =~= all.unref().take(pids@.len() as int));
        }
        proof {
            assert(pids@ =~= all.unref());
            assert(self@.dom() =~= self.processes@.dom());
            assert forall|a: int, b: int| 0 <= a < b < pids@.len() implies pids@[a] != pids@[b] by {
                assert(all[a] != all[b]);
            }
        }
        pids
    }

    /// The present time on the cache's clock, in nanoseconds.
    pub fn now(&self) -> u128 {
        clock_nanos(&self.started)
    }

    /// Whether nothing is remembered of `pid`.
    pub fn is_new_process(&self, pid: u32) -> (is_new: bool)
        ensures
            is_new == !self@.contains_key(pid),
    {
        !self.processes.contains_key(&pid)
    }

    /// Whether `pid` is done with.
    pub fn is_processed(&self, pid: u32) -> (done: bool)
        requires
            self.wf(),
        ensures
            done == handled_pids(self@).contains(pid),
    {
        self.processed_pids.contains(&pid)
    }

    /// Records that `pid` was seen at `now`.
    pub fn mark_seen_at(&mut self, pid: u32, name: String, now: u128)
        requires
            old(self).wf(),
        ensures
            final(self).wf(),
            final(self).max_age() == old(self).max_age(),
            final(self)@ == seen(old(self)@, pid, name@, now as nat),
    {
        let processed = self.processed_pids.contains(&pid);
        self.processes.insert(pid, ProcessEntry { pid, name, last_seen: now, processed });
        assert(self@ =~= seen(old(self)@, pid, name@, now as nat));
    }

    /// Records that `pid` was seen now.
    pub fn mark_seen(&mut self, pid: u32, name: String)
        requires
            old(self).wf(),
        ensures
            final(self).wf(),
            final(self).max_age() == old(self).max_age(),
            final(self)@.contains_key(pid),
            final(self)@ == seen(old(self)@, pid, name@, final(self)@[pid].last_seen),
    {
        let now = self.now();
        self.mark_seen_at(pid, name, now);
    }

    /// Marks `pid` as done with at `now`.
    pub fn mark_processed_at(&mut self, pid: u32, now: u128)
        requires
            old(self).wf(),
        ensures
            final(self).wf(),
            final(self).max_age() == old(self).max_age(),
            final(self)@ == handled(old(self)@, pid, now as nat),
    {
        let name = match self.processes.get(&pid) {
            Some(entry) => entry.name.clone(),
            None => String::new(),
        };
        self.processed_pids.insert(pid);
        self.processes.insert(pid, ProcessEntry { pid, name, last_seen: now, processed: true });
        assert(self@ =~= handled(old(self)@, pid, now as nat));
    }

    /// Marks `pid` as done with now.
    pub fn mark_processed(&mut self, pid: u32)
        requires
            old(self).wf(),
        ensures
            final(self).wf(),
            final(self).max_age() == old(self).max_age(),
            final(self)@.contains_key(pid),
            final(self)@ == handled(old(self)@, pid, final(self)@[pid].last_seen),
    {
        let now = self.now();
        self.mark_processed_at(pid, now);
    }

    /// Forgets every entry that is stale at `now` and returns how many were
    /// forgotten.
    pub fn cleanup_at(&mut self, now: u128) -> (removed: usize)
        requires
            old(self).wf(),
        ensures
            final(self).wf(),
            final(self).max_age() == old(self).max_age(),
            final(self)@ == evicted(old(self)@, now as nat, old(self).max_age()),
            removed == stale_pids(old(self)@, now as nat, old(self).max_age()).len(),
    {
        let ghost before = self@;
        let ghost stale = stale_pids(before, now as nat, self.max_age());
        let pids = self.remembered_pids();
        let mut doomed: Vec<u32> = Vec::new();
        let mut i: usize = 0;
        while i < pids.len()
            invariant
                i <= pids.len(),
                self.wf(),
                self@ == before,
                stale == stale_pids(before, now as nat, self.max_age()),
                pids@.no_duplicates(),
                pids@.to_set() == before.dom(),
                doomed@.no_duplicates(),
                doomed@.to_set() == stale.intersect(pids@.take(i as int).to_set()),
            decreases pids.len() - i,
        {
            let pid = pids[i];
            let ghost visited = pids@.take(i as int);
            proof {
                assert(pids@.to_set().contains(pid));
                assert(pids@.take(i + 1) == visited.push(pid));
                visited.lemma_push_to_set_commute(pid);
                assert(!visited.to_set().contains(pid));
            }
            let entry = self.processes.get(&pid);
            let is_old = match entry {
                Some(entry) => {
                    let elapsed: u128 = if now >= entry.last_seen {
                        now - entry.last_seen
                    } else {
                        0
                    };
                    elapsed >= self.max_age
                },
                None => false,
            };
            assert(is_old == stale.contains(pid));
            if is_old {
                proof {
                    doomed@.lemma_push_to_set_commute(pid);
                    assert(!doomed@.to_set().contains(pid));
                }
                doomed.push(pid);
            }
            i += 1;
            assert(doomed@.to_set() =~= stale.intersect(pids@.take(i as int).to_set()));
        }
        proof {
            assert(pids@.take(i as int) == pids@);
            assert(doomed@.to_set() =~= stale);
            doomed@.unique_seq_to_set();
        }
        let mut j: usize = 0;
        while j < doomed.len()
            invariant
                j <= doomed.len(),
                self.wf(),
                self.max_age() == old(self).max_age(),
                self@ == before.remove_keys(doomed@.take(j as int).to_set()),
            decreases doomed.len() - j,
        {
            let pid = doomed[j];
            let ghost gone = doomed@.take(j as int);
            let ghost held = self@;
            self.processes.remove(&pid);
            self.processed_pids.remove(&pid);
            j += 1;
            proof {
                assert(doomed@.take(j as int) == gone.push(pid));
                gone.lemma_push_to_set_commute(pid);
                assert(self@ =~= held.remove(pid));
                assert(held.remove(pid) =~= before.remove_keys(gone.to_set().insert(pid)));
            }
        }
        proof {
            assert(doomed@.take(j as int) == doomed@);
        }
        doomed.len()
    }

    /// Forgets every entry that is stale now and returns how many were
    /// forgotten.
    pub fn cleanup(&mut self) -> (removed: usize)
        requires
            old(self).wf(),
        ensures
            final(self).wf(),
            final(self).max_age() == old(self).max_age(),
            exists|now: nat|
                {
                    &&& final(self)@ == #[trigger] evicted(old(self)@, now, old(self).max_age())
                    &&& removed == stale_pids(old(self)@, now, old(self).max_age()).len()
                },
    {
        let now = self.now();
        self.cleanup_at(now)
    }

    /// The number of processes remembered.
    pub fn len(&self) -> (count: usize)
        ensures
            count == self@.dom().len(),
    {
        assert(self@.dom() =~= self.processes@.dom());
        self.processes.len()
    }

    /// Whether nothing is remembered.
    pub fn is_empty(&self) -> (empty: bool)
        ensures
            empty == (self@.dom().len() == 0),
    {
        assert(self@.dom() =~= self.processes@.dom());
        self.processes.is_empty()
    }

    /// Counts the entries, those done with, and the rest.
    pub fn stats(&self) -> (stats: CacheStats)
        requires
            self.wf(),
        ensures
            stats.total_entries == self@.dom().len(),
            stats.processed_count == handled_pids(self@).len(),
            stats.unprocessed_count == stats.total_entries - stats.processed_count,
    {
        proof {
            self.lemma_wf();
            assert(self@.dom() =~= self.processes@.dom());
            assert(handled_pids(self@) =~= self.processed_pids@);
        }
        let total = self.processes.len();
        let processed = self.processed_pids.len();
        CacheStats {
            total_entries: total,
            processed_count: processed,
            unprocessed_count: total - processed,
        }
    }
}

/// One change to the memory.
pub ghost enum MemoryOp {
    /// A process was seen.
    Seen { pid: u32, name: Seq<char>, now: nat },
    /// A process was marked as done with.
    Handled { pid: u32, now: nat },
    /// Stale entries were forgotten.
    Evict { now: nat, max_age: nat },
}

/// The memory after one change.
pub open spec fn applied(memory: Map<u32, CacheEntry>, op: MemoryOp) -> Map<u32, CacheEntry> {
    match op {
        MemoryOp::Seen { pid, name, now } => seen(memory, pid, name, now),
        MemoryOp::Handled { pid, now } => handled(memory, pid, now),
        MemoryOp::Evict { now, max_age } => evicted(memory, now, max_age),
    }
}

/// The memory after a run of changes, first to last.
pub open spec fn applied_all(memory: Map<u32, CacheEntry>, ops: Seq<MemoryOp>) -> Map<
    u32,
    CacheEntry,
>
    decreases ops.len(),
{
    if ops.len() == 0 {
        memory
    } else {
        applied(applied_all(memory, ops.drop_last()), ops.last())
    }
}

/// Right after a process is seen it is no longer new, and whether it is done
/// with is what it was before; a process that was not done with is still not.
pub proof fn lemma_seen_is_known(memory: Map<u32, CacheEntry>, pid: u32, name: Seq<char>, now: nat)
    ensures
        seen(memory, pid, name, now).contains_key(pid),
        handled_pids(seen(memory, pid, name, now)) == handled_pids(memory),
        !handled_pids(memory).contains(pid) ==> !handled_pids(seen(memory, pid, name, now)).contains(
            pid,
        ),
{
    assert(handled_pids(seen(memory, pid, name, now)) =~= handled_pids(memory));
}

/// Right after a process is marked as done with, it is done with, and no
/// other process has changed.
pub proof fn lemma_handled_is_handled(memory: Map<u32, CacheEntry>, pid: u32, now: nat)
    ensures
        handled(memory, pid, now).contains_key(pid),
        handled_pids(handled(memory, pid, now)) == handled_pids(memory).insert(pid),
{
    assert(handled_pids(handled(memory, pid, now)) =~= handled_pids(memory).insert(pid));
}

/// No single change takes the mark of a process away while its entry stays:
/// only forgetting the entry does.
pub proof fn lemma_handled_survives(memory: Map<u32, CacheEntry>, op: MemoryOp, pid: u32)
    requires
        handled_pids(memory).contains(pid),
        applied(memory, op).contains_key(pid),
    ensures
        handled_pids(applied(memory, op)).contains(pid),
{
}

/// A process that is done with stays so through any run of changes after
/// each of which its entry is still there, that is, until it is evicted.
pub proof fn lemma_handled_until_evicted(memory: Map<u32, CacheEntry>, ops: Seq<MemoryOp>, pid: u32)
    requires
        handled_pids(memory).contains(pid),
        forall|k: int| 1 <= k <= ops.len() ==> #[trigger] applied_all(memory, ops.take(k)).contains_key(pid),
    ensures
        handled_pids(applied_all(memory, ops)).contains(pid),
    decreases ops.len(),
{
    if ops.len() > 0 {
        let earlier = ops.drop_last();
        assert forall|k: int| 1 <= k <= earlier.len() implies #[trigger] applied_all(
            memory,
            earlier.take(k),
        ).contains_key(pid) by {
            assert(earlier.take(k) == ops.take(k));
        }
        lemma_handled_until_evicted(memory, earlier, pid);
        assert(ops.take(ops.len() as int) == ops);
        assert(applied_all(memory, ops.take(ops.len() as int)).contains_key(pid));
        assert(applied_all(memory, ops) == applied(applied_all(memory, earlier), ops.last()));
        lemma_handled_survives(applied_all(memory, earlier), ops.last(), pid);
    }
}

/// Eviction is exact. An entry is kept, unchanged, exactly when its age is
/// below `max_age`; the others are gone and so are no longer done with; and
/// the number of entries falls by the number of stale ones.
pub proof fn lemma_eviction_exact(memory: Map<u32, CacheEntry>, now: nat, max_age: nat)
    requires
        memory.dom().finite(),
    ensures
        forall|pid: u32| #[trigger]
            evicted(memory, now, max_age).contains_key(pid) <==> memory.contains_key(pid) && age(
                now,
                memory[pid].last_seen,
            ) < max_age,
        forall|pid: u32| #[trigger]
            evicted(memory, now, max_age).contains_key(pid) ==> evicted(memory, now, max_age)[pid]
                == memory[pid],
        forall|pid: u32| #[trigger]
            stale_pids(memory, now, max_age).contains(pid) ==> !handled_pids(
                evicted(memory, now, max_age),
            ).contains(pid),
        handled_pids(evicted(memory, now, max_age)) == handled_pids(memory).difference(
            stale_pids(memory, now, max_age),
        ),
        stale_pids(memory, now, max_age).len() == memory.dom().len() - evicted(
            memory,
            now,
            max_age,
        ).dom().len(),
{
    let stale = stale_pids(memory, now, max_age);
    assert(handled_pids(evicted(memory, now, max_age)) =~= handled_pids(memory).difference(stale));
    assert(stale.subset_of(memory.dom()));
    memory.lemma_remove_keys_len(stale);
}

} // verus!
