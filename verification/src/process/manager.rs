//! The scan cycle: which processes of a snapshot are steered, how often an
//! attempt is repeated, and what the memory holds afterwards.
//!
//! The cycle is driven from outside. `scan_and_process` takes a snapshot and
//! moves to the first process that needs an attempt; `next_action` tells what
//! to do; `attempt_completed` takes the outcome of the attempt and moves on.

use vstd::prelude::*;
use std::sync::Arc;
use crate::config::settings::{match_mode_named, Config, MatchMode};
use crate::cpu::affinity::{AffinityManager, AffinityRequest};
use crate::cpu::types::CoreInfo;
use crate::process::cache::{handled_pids, untimed, CacheEntry, ProcessCache, Remembered};
use crate::process::matcher::{
    any_equal,
    any_fragment,
    any_hit,
    any_wildcard,
    excluded,
    exactly_listed,
    lowercase_all,
    regex_listed,
    search_all,
    whitelisted,
    wildcard_listed,
};
use crate::process::monitor::{process_views, ProcessInfo, ProcessView};
use crate::utils::text::{decimal, decimal_digits, lowercase, to_lowercase};
use crate::utils::ServiceError;
use vstd::string::StringExecFns;

verus! {

/// The rules of a scan, as mathematical values.
pub ghost struct Policy {
    pub mode: MatchMode,
    pub whitelist: Seq<Seq<char>>,
    pub exclusions: Seq<Seq<char>>,
    pub retry_attempts: nat,
    pub retry_delay_ms: u64,
    pub mask: usize,
}

impl Policy {
    /// Whether a process of this name is steered: it is whitelisted and not
    /// excluded.
    pub open spec fn admits(self, name: Seq<char>) -> bool {
        whitelisted(self.mode, self.whitelist, name) && !excluded(self.exclusions, name)
    }
}

/// A scan cycle at one moment: the memory, the snapshot, the process that is
/// being looked at, the attempts already made on it, and the processes
/// steered so far.
pub ghost struct ScanState {
    pub memory: Map<u32, Remembered>,
    pub processes: Seq<ProcessView>,
    pub position: nat,
    pub attempts: nat,
    pub handled: nat,
}

/// Whether the memory says that `pid` is done with.
pub open spec fn is_done(memory: Map<u32, Remembered>, pid: u32) -> bool {
    memory.contains_key(pid) && memory[pid].handled
}

/// The memory after a process that is not done with was looked at: a new one
/// is remembered, a known one is left as it is.
pub open spec fn noted(memory: Map<u32, Remembered>, process: ProcessView) -> Map<u32, Remembered> {
    if memory.contains_key(process.pid) {
        memory
    } else {
        memory.insert(process.pid, Remembered { name: process.name, handled: false })
    }
}

/// The memory after `pid` was marked as done with.
pub open spec fn done(memory: Map<u32, Remembered>, pid: u32) -> Map<u32, Remembered> {
    memory.insert(
        pid,
        Remembered {
            name: if memory.contains_key(pid) {
                memory[pid].name
            } else {
                Seq::empty()
            },
            handled: true,
        },
    )
}

/// The cycle moved on, from the process at `position`, to the first process
/// that needs an attempt, or to the end of the snapshot. A process that is
/// done with is passed over untouched; any other is remembered, and passed
/// over unless the policy admits it.
pub open spec fn settled(policy: Policy, state: ScanState) -> ScanState
    decreases state.processes.len() - state.position,
{
    if state.position >= state.processes.len() {
        state
    } else {
        let process = state.processes[state.position as int];
        if is_done(state.memory, process.pid) {
            settled(policy, ScanState { position: state.position + 1, ..state })
        } else if policy.admits(process.name) {
            ScanState { memory: noted(state.memory, process), ..state }
        } else {
            settled(
                policy,
                ScanState {
                    memory: noted(state.memory, process),
                    position: state.position + 1,
                    ..state
                },
            )
        }
    }
}

/// The cycle as it stands when a scan of `processes` begins.
pub open spec fn begun(policy: Policy, memory: Map<u32, Remembered>, processes: Seq<ProcessView>)
    -> ScanState {
    settled(policy, ScanState { memory, processes, position: 0, attempts: 0, handled: 0 })
}

/// The line that reports a memory of `total` entries of which `processed`
/// are done with.
pub open spec fn cache_stats_text(total: nat, processed: nat) -> Seq<char> {
    "Cache stats - Total: "@ + decimal_digits(total) + ", Processed: "@ + decimal_digits(processed)
        + ", Unprocessed: "@ + decimal_digits((total - processed) as nat)
}

/// What follows an attempt that was the `attempts_made`-th on its process.
#[derive(Debug, Clone, Copy, PartialEq, Eq, Structural)]
pub enum RetryDecision {
    /// The attempt succeeded: the process is steered.
    Succeeded,
    /// The attempt failed and another is due after the delay.
    Retry { delay_ms: u64 },
    /// The attempt failed and was the last one allowed.
    GiveUp,
}

/// The decision after the `attempts_made`-th attempt on a process, counted
/// from one.
pub open spec fn retry_decision(policy: Policy, attempts_made: nat, succeeded: bool)
    -> RetryDecision {
    if succeeded {
        RetryDecision::Succeeded
    } else if attempts_made < policy.retry_attempts {
        RetryDecision::Retry { delay_ms: policy.retry_delay_ms }
    } else {
        RetryDecision::GiveUp
    }
}

/// The cycle after the attempt on the process at `position` ended. On success
/// and after the last failure allowed the process is marked as done with and
/// the cycle moves on; a success is counted. After any other failure the same
/// process waits for its next attempt. A cycle that is over stays as it is.
pub open spec fn completed(policy: Policy, state: ScanState, succeeded: bool) -> ScanState {
    if state.position >= state.processes.len() {
        state
    } else {
        let pid = state.processes[state.position as int].pid;
        match retry_decision(policy, state.attempts + 1, succeeded) {
            RetryDecision::Succeeded => settled(
                policy,
                ScanState {
                    memory: done(state.memory, pid),
                    position: state.position + 1,
                    attempts: 0,
                    handled: state.handled + 1,
                    ..state
                },
            ),
            RetryDecision::Retry { .. } => ScanState { attempts: state.attempts + 1, ..state },
            RetryDecision::GiveUp => settled(
                policy,
                ScanState {
                    memory: done(state.memory, pid),
                    position: state.position + 1,
                    attempts: 0,
                    ..state
                },
            ),
        }
    }
}

/// What a cycle asks for next, as mathematical values.
pub ghost enum ActionView {
    /// Wait `delay_ms`, then ask the system to restrict `pid` to `mask`.
    Attempt { pid: u32, mask: usize, name: Seq<char>, delay_ms: u64 },
    /// Nothing: the cycle is over and steered `handled` processes.
    Finished { handled: nat },
}

/// What the cycle asks for in a given state: the first attempt on a process
/// at once, a repeated one after the retry delay.
pub open spec fn action_of(policy: Policy, state: ScanState) -> ActionView {
    if state.position >= state.processes.len() {
        ActionView::Finished { handled: state.handled }
    } else {
        let process = state.processes[state.position as int];
        ActionView::Attempt {
            pid: process.pid,
            mask: policy.mask,
            name: process.name,
            delay_ms: if state.attempts == 0 {
                0
            } else {
                policy.retry_delay_ms
            },
        }
    }
}

/// What to do next in a scan cycle.
#[derive(Debug, Clone)]
pub enum ScanAction {
    /// Wait `delay_ms` milliseconds, make the request, and report how it
    /// went.
    Attempt { request: AffinityRequest, delay_ms: u64 },
    /// The cycle is over; `handled` processes were steered.
    Finished { handled: usize },
}

impl View for ScanAction {
    type V = ActionView;

    open spec fn view(&self) -> ActionView {
        match self {
            ScanAction::Attempt { request, delay_ms } => ActionView::Attempt {
                pid: request.pid,
                mask: request.affinity_mask,
                name: request.process_name@,
                delay_ms: *delay_ms,
            },
            ScanAction::Finished { handled } => ActionView::Finished { handled: *handled as nat },
        }
    }
}

/// One scan in progress: the snapshot and how far the cycle has come.
#[derive(Debug)]
pub struct ScanCycle {
    processes: Vec<ProcessInfo>,
    position: usize,
    attempts: u32,
    handled: usize,
}

impl ScanCycle {
    /// The counters are within the snapshot.
    pub closed spec fn wf(&self) -> bool {
        self.position <= self.processes@.len() && self.handled <= self.position
    }

    /// The snapshot of the cycle.
    pub closed spec fn processes(&self) -> Seq<ProcessView> {
        process_views(self.processes@)
    }

    /// The index of the process that is being looked at.
    pub closed spec fn position(&self) -> nat {
        self.position as nat
    }

    /// The attempts already made on that process.
    pub closed spec fn attempts(&self) -> nat {
        self.attempts as nat
    }

    /// The processes steered so far.
    pub closed spec fn handled(&self) -> nat {
        self.handled as nat
    }

    /// Whether the cycle is over.
    pub fn is_finished(&self) -> (finished: bool)
        ensures
            finished == (self.position() >= self.processes().len()),
    {
        self.position >= self.processes.len()
    }

    /// The number of processes steered so far.
    pub fn handled_count(&self) -> (count: usize)
        ensures
            count == self.handled(),
    {
        self.handled
    }
}

/// Runs the scan cycles: holds the policy and the memory of processes.
pub struct ProcessManager {
    config: Arc<Config>,
    affinity_manager: Arc<AffinityManager>,
    cache: ProcessCache,
    match_mode: MatchMode,
}

impl ProcessManager {
    /// The manager is consistent: its memory is, its mode is the configured
    /// one, and at least one attempt is allowed per process.
    pub closed spec fn wf(&self) -> bool {
        &&& self.cache.wf()
        &&& self.config.advanced.retry_attempts >= 1
        &&& self.match_mode == match_mode_named(lowercase(self.config.whitelist.match_mode@))
    }

    /// The rules that the manager scans by.
    pub closed spec fn policy(&self) -> Policy {
        Policy {
            mode: self.match_mode,
            whitelist: self.config.whitelist.processes.deep_view(),
            exclusions: self.config.whitelist.exclude_processes.deep_view(),
            retry_attempts: self.config.advanced.retry_attempts as nat,
            retry_delay_ms: self.config.advanced.retry_delay_ms,
            mask: self.topology().p_core_mask,
        }
    }

    /// The memory of processes, with its times.
    pub closed spec fn memory(&self) -> Map<u32, CacheEntry> {
        self.cache@
    }

    /// The topology that the manager steers by.
    pub closed spec fn topology(&self) -> CoreInfo {
        self.affinity_manager.core_info()
    }

    /// The age, in nanoseconds, at which the memory forgets an entry.
    pub closed spec fn max_age(&self) -> nat {
        self.cache.max_age()
    }

    /// The state of a cycle run by this manager.
    pub open spec fn state(&self, cycle: &ScanCycle) -> ScanState {
        ScanState {
            memory: untimed(self.memory()),
            processes: cycle.processes(),
            position: cycle.position(),
            attempts: cycle.attempts(),
            handled: cycle.handled(),
        }
    }

    /// A manager with an empty memory.
    pub fn new(config: Arc<Config>, affinity_manager: Arc<AffinityManager>) -> (manager:
        ProcessManager)
        requires
            config.valid(),
        ensures
            manager.wf(),
            manager.memory() == Map::<u32, CacheEntry>::empty(),
            manager.topology() == affinity_manager.core_info(),
            manager.max_age() == config.advanced.cache_cleanup_interval_secs
                * crate::process::cache::NANOS_PER_SEC,
            manager.policy() == (Policy {
                mode: match_mode_named(lowercase(config.whitelist.match_mode@)),
                whitelist: config.whitelist.processes.deep_view(),
                exclusions: config.whitelist.exclude_processes.deep_view(),
                retry_attempts: config.advanced.retry_attempts as nat,
                retry_delay_ms: config.advanced.retry_delay_ms,
                mask: affinity_manager.core_info().p_core_mask,
            }),
    {
        let match_mode = MatchMode::from_str(config.whitelist.match_mode.as_str());
        let cache = ProcessCache::new(config.advanced.cache_cleanup_interval_secs);
        ProcessManager { config, affinity_manager, cache, match_mode }
    }

    /// Begins a scan cycle on the snapshot that the enumeration gave, and
    /// moves to the first process that needs an attempt. A failed enumeration
    /// is handed back and nothing changes.
    pub fn scan_and_process(&mut self, snapshot: Result<Vec<ProcessInfo>, ServiceError>) -> (result:
        Result<ScanCycle, ServiceError>)
        requires
            old(self).wf(),
        ensures
            final(self).wf(),
            final(self).policy() == old(self).policy(),
            final(self).max_age() == old(self).max_age(),
            match snapshot {
                Ok(processes) => result is Ok && result->Ok_0.wf() && final(self).state(
                    &result->Ok_0,
                ) == begun(old(self).policy(), untimed(old(self).memory()), process_views(processes@))
                    && kept(old(self).memory(), final(self).memory(), None),
                Err(error) => result == Err::<ScanCycle, ServiceError>(error) && final(self).memory()
                    == old(self).memory(),
            },
    {
        match snapshot {
            Ok(processes) => {
                let mut cycle = ScanCycle { processes, position: 0, attempts: 0, handled: 0 };
                self.settle(&mut cycle);
                Ok(cycle)
            },
            Err(error) => Err(error),
        }
    }

    /// Moves the cycle to the first process, from the one at its position on,
    /// that needs an attempt.
    fn settle(&mut self, cycle: &mut ScanCycle)
        requires
            old(self).wf(),
            old(cycle).wf(),
        ensures
            final(self).wf(),
            final(cycle).wf(),
            final(self).policy() == old(self).policy(),
            final(self).max_age() == old(self).max_age(),
            final(self).state(final(cycle)) == settled(old(self).policy(), old(self).state(old(cycle))),
            kept(old(self).memory(), final(self).memory(), None),
    {
        let ghost policy = self.policy();
        let ghost goal = settled(policy, self.state(cycle));
        let mut waiting = false;
        while !waiting && cycle.position < cycle.processes.len()
            invariant
                self.wf(),
                cycle.wf(),
                self.policy() == policy,
                self.max_age() == old(self).max_age(),
                !waiting ==> settled(policy, self.state(cycle)) == goal,
                waiting ==> self.state(cycle) == goal,
                kept(old(self).memory(), self.memory(), None),
            decreases cycle.processes@.len() - cycle.position, if waiting { 0int } else { 1int },
        {
            let ghost before = self.state(cycle);
            let pid = cycle.processes[cycle.position].pid;
            assert(before.processes[before.position as int] == cycle.processes@[cycle.position as int]@);
            if self.cache.is_processed(pid) {
                assert(is_done(before.memory, pid));
                cycle.position += 1;
            } else {
                assert(!is_done(before.memory, pid));
                if self.cache.is_new_process(pid) {
                    let name = cycle.processes[cycle.position].name.clone();
                    self.cache.mark_seen(pid, name);
                }
                assert(untimed(self.memory()) =~= noted(
                    before.memory,
                    before.processes[before.position as int],
                ));
                let admitted = self.is_whitelisted(cycle.processes[cycle.position].name.as_str())
                    && !self.is_excluded(cycle.processes[cycle.position].name.as_str());
                if admitted {
                    waiting = true;
                } else {
                    cycle.position += 1;
                }
            }
        }
    }

    /// What the cycle asks for next.
    pub fn next_action(&self, cycle: &ScanCycle) -> (action: ScanAction)
        requires
            cycle.wf(),
        ensures
            action@ == action_of(self.policy(), self.state(cycle)),
    {
        if cycle.position >= cycle.processes.len() {
            ScanAction::Finished { handled: cycle.handled }
        } else {
            let process = &cycle.processes[cycle.position];
            assert(cycle.processes()[cycle.position as int] == process@);
            let request = self.affinity_manager.set_affinity_to_p_cores(
                process.pid,
                process.name.as_str(),
            );
            let delay_ms = if cycle.attempts == 0 {
                0
            } else {
                self.config.advanced.retry_delay_ms
            };
            ScanAction::Attempt { request, delay_ms }
        }
    }

    /// Decides what follows an attempt that was the `attempts_made`-th on its
    /// process, counted from one: nothing more after a success, another
    /// attempt after the retry delay while fewer than the configured number
    /// were made, and giving up otherwise.
    pub fn set_affinity_with_retry(&self, attempts_made: u32, outcome: &Result<(), ServiceError>)
        -> (decision: RetryDecision)
        ensures
            decision == retry_decision(self.policy(), attempts_made as nat, outcome is Ok),
    {
        match outcome {
            Ok(_) => RetryDecision::Succeeded,
            Err(_) => {
                if attempts_made < self.config.advanced.retry_attempts {
                    RetryDecision::Retry { delay_ms: self.config.advanced.retry_delay_ms }
                } else {
                    RetryDecision::GiveUp
                }
            },
        }
    }

    /// Takes the outcome of the attempt that the cycle asked for and moves
    /// on.
    pub fn attempt_completed(&mut self, cycle: &mut ScanCycle, outcome: &Result<(), ServiceError>)
        requires
            old(self).wf(),
            old(cycle).wf(),
        ensures
            final(self).wf(),
            final(cycle).wf(),
            final(self).policy() == old(self).policy(),
            final(self).max_age() == old(self).max_age(),
            final(self).state(final(cycle)) == completed(
                old(self).policy(),
                old(self).state(old(cycle)),
                outcome is Ok,
            ),
            kept(old(self).memory(), final(self).memory(), pending_pid(old(self).state(old(cycle)))),
            final(cycle).position() == old(cycle).position() ==> final(self).memory() == old(
                self,
            ).memory(),
    {
        if cycle.position >= cycle.processes.len() {
            return ;
        }
        let ghost before = self.state(cycle);
        let pid = cycle.processes[cycle.position].pid;
        assert(before.processes[before.position as int] == cycle.processes@[cycle.position as int]@);
        let attempts_made: u32 = if cycle.attempts < u32::MAX {
            cycle.attempts + 1
        } else {
            u32::MAX
        };
        match self.set_affinity_with_retry(attempts_made, outcome) {
            RetryDecision::Succeeded => {
                self.cache.mark_processed(pid);
                assert(untimed(self.memory()) =~= done(before.memory, pid));
                cycle.position += 1;
                cycle.attempts = 0;
                cycle.handled += 1;
                let ghost marked = self.memory();
                assert(kept(old(self).memory(), marked, Some(pid)));
                self.settle(cycle);
                proof {
                    assert(kept(marked, self.memory(), None));
                    assert(pending_pid(before) == Some(pid));
                    assert(kept(old(self).memory(), self.memory(), Some(pid)));
                    lemma_settled(self.policy(), ScanState {
                        memory: done(before.memory, pid),
                        position: before.position + 1,
                        attempts: 0,
                        handled: before.handled + 1,
                        ..before
                    });
                }
            },
            RetryDecision::Retry { .. } => {
                cycle.attempts = attempts_made;
            },
            RetryDecision::GiveUp => {
                self.cache.mark_processed(pid);
                assert(untimed(self.memory()) =~= done(before.memory, pid));
                cycle.position += 1;
                cycle.attempts = 0;
                let ghost marked = self.memory();
                assert(kept(old(self).memory(), marked, Some(pid)));
                self.settle(cycle);
                proof {
                    assert(kept(marked, self.memory(), None));
                    assert(pending_pid(before) == Some(pid));
                    assert(kept(old(self).memory(), self.memory(), Some(pid)));
                    lemma_settled(self.policy(), ScanState {
                        memory: done(before.memory, pid),
                        position: before.position + 1,
                        attempts: 0,
                        ..before
                    });
                }
            },
        }
    }

    /// The topology that the manager steers by, shared.
    pub fn get_core_info(&self) -> (info: Arc<CoreInfo>)
        ensures
            *info == self.topology(),
    {
        self.affinity_manager.get_core_info()
    }

    /// The present time on the clock of the memory, in nanoseconds.
    pub fn now(&self) -> u128 {
        self.cache.now()
    }

    /// Forgets the entries of the memory that are stale at `now` and returns
    /// how many there were.
    pub fn cleanup_cache_at(&mut self, now: u128) -> (removed: usize)
        requires
            old(self).wf(),
        ensures
            final(self).wf(),
            final(self).policy() == old(self).policy(),
            final(self).max_age() == old(self).max_age(),
            final(self).memory() == crate::process::cache::evicted(
                old(self).memory(),
                now as nat,
                old(self).max_age(),
            ),
            removed == crate::process::cache::stale_pids(
                old(self).memory(),
                now as nat,
                old(self).max_age(),
            ).len(),
    {
        self.cache.cleanup_at(now)
    }

    /// The counts of the memory in one line of text.
    pub fn get_cache_stats(&self) -> (line: String)
        requires
            self.wf(),
        ensures
            line@ == cache_stats_text(
                self.memory().dom().len(),
                handled_pids(self.memory()).len(),
            ),
    {
        let stats = self.cache.stats();
        let mut line = "Cache stats - Total: ".to_owned();
        line.append(decimal(stats.total_entries as u64).as_str());
        line.append(", Processed: ");
        line.append(decimal(stats.processed_count as u64).as_str());
        line.append(", Unprocessed: ");
        line.append(decimal(stats.unprocessed_count as u64).as_str());
        line
    }

    /// Forgets the stale entries of the memory and returns how many there
    /// were.
    pub fn cleanup_cache(&mut self) -> (removed: usize)
        requires
            old(self).wf(),
        ensures
            final(self).wf(),
            final(self).policy() == old(self).policy(),
            final(self).max_age() == old(self).max_age(),
            exists|now: nat|
                {
                    &&& final(self).memory() == #[trigger] crate::process::cache::evicted(
                        old(self).memory(),
                        now,
                        old(self).max_age(),
                    )
                    &&& removed == crate::process::cache::stale_pids(
                        old(self).memory(),
                        now,
                        old(self).max_age(),
                    ).len()
                },
    {
        let removed = self.cache.cleanup();
        proof {
            let before = old(self).cache@;
            let max_age = old(self).cache.max_age();
            let now = choose|now: nat|
                {
                    &&& self.cache@ == #[trigger] crate::process::cache::evicted(before, now, max_age)
                    &&& removed == crate::process::cache::stale_pids(before, now, max_age).len()
                };
            assert(self.memory() == crate::process::cache::evicted(
                old(self).memory(),
                now,
                old(self).max_age(),
            ));
        }
        removed
    }

    /// Whether the whitelist takes the name in. An empty whitelist takes
    /// nothing.
    pub fn is_whitelisted(&self, process_name: &str) -> (listed: bool)
        ensures
            listed == whitelisted(self.policy().mode, self.policy().whitelist, process_name@),
            self.policy().whitelist.len() == 0 ==> !listed,
    {
        if self.config.whitelist.processes.is_empty() {
            return false;
        }
        match self.match_mode {
            MatchMode::Exact => self.exact_match(process_name),
            MatchMode::Wildcard => self.wildcard_match(process_name),
            MatchMode::Regex => self.regex_match(process_name),
        }
    }

    /// Whether the name holds some exclusion fragment, case aside.
    pub fn is_excluded(&self, process_name: &str) -> (out: bool)
        ensures
            out == excluded(self.policy().exclusions, process_name@),
    {
        let name_lower = to_lowercase(process_name);
        let fragments = lowercase_all(&self.config.whitelist.exclude_processes);
        any_fragment(&fragments, name_lower.as_str())
    }

    /// Whether the name equals some whitelist pattern, case aside.
    pub fn exact_match(&self, process_name: &str) -> (listed: bool)
        ensures
            listed == exactly_listed(self.policy().whitelist, process_name@),
    {
        let name_lower = to_lowercase(process_name);
        let patterns = lowercase_all(&self.config.whitelist.processes);
        any_equal(&patterns, &name_lower)
    }

    /// Whether some whitelist pattern, as a wildcard pattern, matches the
    /// name, case aside.
    pub fn wildcard_match(&self, process_name: &str) -> (listed: bool)
        ensures
            listed == wildcard_listed(self.policy().whitelist, process_name@),
    {
        let name_lower = to_lowercase(process_name);
        let patterns = lowercase_all(&self.config.whitelist.processes);
        any_wildcard(&patterns, name_lower.as_str())
    }

    /// Whether some whitelist pattern, as a regular expression, finds a match
    /// in the name.
    pub fn regex_match(&self, process_name: &str) -> (listed: bool)
        ensures
            listed == regex_listed(self.policy().whitelist, process_name@),
    {
        let outcomes = search_all(&self.config.whitelist.processes, process_name);
        any_hit(&outcomes)
    }
}

/// The process that waits for an attempt, if the cycle is not over.
pub open spec fn pending_pid(state: ScanState) -> Option<u32> {
    if state.position < state.processes.len() {
        Some(state.processes[state.position as int].pid)
    } else {
        None
    }
}

/// Whether every entry of `before`, except that of `touched`, is still in
/// `after` as it was, the time it was last touched included.
pub open spec fn kept(
    before: Map<u32, CacheEntry>,
    after: Map<u32, CacheEntry>,
    touched: Option<u32>,
) -> bool {
    forall|pid: u32| #[trigger]
        before.contains_key(pid) && touched != Some(pid) ==> after.contains_key(pid) && after[pid]
            == before[pid]
}

/// What holds of every state that a cycle reaches: the counters lie within
/// the snapshot, fewer attempts were made on the process in hand than the
/// policy allows, and a process that waits for an attempt is remembered, not
/// done with, whitelisted and not excluded.
pub open spec fn sound(policy: Policy, state: ScanState) -> bool {
    &&& state.position <= state.processes.len()
    &&& state.handled <= state.position
    &&& state.attempts < policy.retry_attempts
    &&& state.position < state.processes.len() ==> {
        let process = state.processes[state.position as int];
        &&& state.memory.contains_key(process.pid)
        &&& !is_done(state.memory, process.pid)
        &&& policy.admits(process.name)
    }
    &&& state.position == state.processes.len() ==> state.attempts == 0
}

/// The cycle after `times` attempts in a row have failed.
pub open spec fn failed(policy: Policy, state: ScanState, times: nat) -> ScanState
    decreases times,
{
    if times == 0 {
        state
    } else {
        completed(policy, failed(policy, state, (times - 1) as nat), false)
    }
}

/// Moving on neither marks nor unmarks a process, counts nothing, passes
/// over no process that needs an attempt, and ends in a sound state.
pub proof fn lemma_settled(policy: Policy, state: ScanState)
    requires
        policy.retry_attempts >= 1,
        state.position <= state.processes.len(),
        state.handled <= state.position,
        state.attempts == 0,
    ensures
        sound(policy, settled(policy, state)),
        settled(policy, state).processes == state.processes,
        settled(policy, state).position >= state.position,
        settled(policy, state).handled == state.handled,
        forall|pid: u32|
            is_done(settled(policy, state).memory, pid) <==> is_done(state.memory, pid),
        forall|k: int|
            state.position <= k < settled(policy, state).position ==> is_done(
                state.memory,
                #[trigger] state.processes[k].pid,
            ) || !policy.admits(state.processes[k].name),
    decreases state.processes.len() - state.position,
{
    if state.position < state.processes.len() {
        let process = state.processes[state.position as int];
        let end = settled(policy, state);
        if is_done(state.memory, process.pid) {
            let next = ScanState { position: state.position + 1, ..state };
            lemma_settled(policy, next);
            assert(end == settled(policy, next));
            assert forall|pid: u32| is_done(end.memory, pid) <==> is_done(state.memory, pid) by {
                assert(is_done(settled(policy, next).memory, pid) <==> is_done(next.memory, pid));
            }
        } else if policy.admits(process.name) {
            assert(end.memory == noted(state.memory, process));
        } else {
            let next = ScanState {
                memory: noted(state.memory, process),
                position: state.position + 1,
                ..state
            };
            lemma_settled(policy, next);
            assert(end == settled(policy, next));
            assert forall|pid: u32| is_done(end.memory, pid) <==> is_done(state.memory, pid) by {
                assert(is_done(settled(policy, next).memory, pid) <==> is_done(next.memory, pid));
            }
            assert forall|k: int| state.position <= k < end.position implies is_done(
                state.memory,
                #[trigger] state.processes[k].pid,
            ) || !policy.admits(state.processes[k].name) by {
                if k > state.position {
                    assert(is_done(next.memory, next.processes[k].pid) || !policy.admits(
                        next.processes[k].name,
                    ));
                }
            }
        }
    }
}

/// A scan begins in a sound state, through with what lies before its
/// position, with the processes done with as they were.
pub proof fn lemma_begun(policy: Policy, memory: Map<u32, Remembered>, processes: Seq<ProcessView>)
    requires
        policy.retry_attempts >= 1,
    ensures
        sound(policy, begun(policy, memory, processes)),
        traversed(policy, begun(policy, memory, processes)),
        begun(policy, memory, processes).handled == 0,
        forall|pid: u32|
            is_done(begun(policy, memory, processes).memory, pid) <==> is_done(memory, pid),
{
    let start = ScanState { memory, processes, position: 0, attempts: 0, handled: 0 };
    lemma_settled(policy, start);
    lemma_settled_traversed(policy, start);
}

/// The outcome of an attempt leads from a sound state to a sound state. The
/// count of steered processes rises by one on a success and not otherwise,
/// and the only process that can become done with is the one that the
/// attempt was for.
pub proof fn lemma_completed(policy: Policy, state: ScanState, succeeded: bool)
    requires
        policy.retry_attempts >= 1,
        sound(policy, state),
    ensures
        sound(policy, completed(policy, state, succeeded)),
        completed(policy, state, succeeded).processes == state.processes,
        completed(policy, state, succeeded).handled == state.handled + if succeeded
            && state.position < state.processes.len() {
            1nat
        } else {
            0nat
        },
        forall|pid: u32|
            is_done(completed(policy, state, succeeded).memory, pid) ==> is_done(state.memory, pid)
                || (state.position < state.processes.len()
                && pid == state.processes[state.position as int].pid),
        forall|pid: u32|
            is_done(state.memory, pid) ==> is_done(completed(policy, state, succeeded).memory, pid),
{
    if state.position < state.processes.len() {
        let pid = state.processes[state.position as int].pid;
        let end = completed(policy, state, succeeded);
        match retry_decision(policy, state.attempts + 1, succeeded) {
            RetryDecision::Retry { .. } => {},
            _ => {
                let moved = ScanState {
                    memory: done(state.memory, pid),
                    position: state.position + 1,
                    attempts: 0,
                    handled: if succeeded {
                        state.handled + 1
                    } else {
                        state.handled
                    },
                    ..state
                };
                lemma_settled(policy, moved);
                assert(end == settled(policy, moved));
                assert forall|other: u32| is_done(end.memory, other) <==> is_done(
                    state.memory,
                    other,
                ) || other == pid by {
                    assert(is_done(settled(policy, moved).memory, other) <==> is_done(
                        moved.memory,
                        other,
                    ));
                }
            },
        }
    }
}

/// Exclusion overrides the whitelist. Whatever a cycle asks for is for a
/// process whose name is whitelisted and not excluded, that is remembered and
/// not done with; so a process with an excluded name is never attempted, and
/// never marked as done with on its account.
pub proof fn lemma_exclusion_wins(policy: Policy, state: ScanState, succeeded: bool)
    requires
        policy.retry_attempts >= 1,
        sound(policy, state),
    ensures
        match action_of(policy, state) {
            ActionView::Attempt { pid, mask, name, delay_ms } => {
                &&& whitelisted(policy.mode, policy.whitelist, name)
                &&& !excluded(policy.exclusions, name)
                &&& !is_done(state.memory, pid)
                &&& mask == policy.mask
            },
            ActionView::Finished { handled } => handled == state.handled,
        },
        forall|pid: u32|
            is_done(completed(policy, state, succeeded).memory, pid) && !is_done(state.memory, pid)
                ==> {
                &&& state.position < state.processes.len()
                &&& pid == state.processes[state.position as int].pid
                &&& !excluded(policy.exclusions, state.processes[state.position as int].name)
            },
{
    lemma_completed(policy, state, succeeded);
}

/// A process that is done with is never attempted again, in this cycle or in
/// a later one, for as long as the memory holds it.
pub proof fn lemma_done_is_left_alone(policy: Policy, state: ScanState, pid: u32)
    requires
        sound(policy, state),
        is_done(state.memory, pid),
    ensures
        !(action_of(policy, state) matches ActionView::Attempt { pid: asked, .. } && asked == pid),
{
}

/// The retry bound. While fewer failures in a row than the policy allows
/// attempts have come in, the same process waits for its next attempt, after
/// the retry delay. With the failure that uses up the attempts the process
/// is marked as done with, it is not counted as steered, the cycle has moved
/// past it, and it is not asked for again.
pub proof fn lemma_retry_bound(policy: Policy, state: ScanState, times: nat)
    requires
        policy.retry_attempts >= 1,
        sound(policy, state),
        state.position < state.processes.len(),
        state.attempts == 0,
        times <= policy.retry_attempts,
    ensures
        times < policy.retry_attempts ==> failed(policy, state, times) == (ScanState {
            attempts: times,
            ..state
        }),
        0 < times < policy.retry_attempts ==> action_of(policy, failed(policy, state, times))
            == (ActionView::Attempt {
            pid: state.processes[state.position as int].pid,
            mask: policy.mask,
            name: state.processes[state.position as int].name,
            delay_ms: policy.retry_delay_ms,
        }),
        times == policy.retry_attempts ==> {
            let end = failed(policy, state, times);
            let pid = state.processes[state.position as int].pid;
            &&& sound(policy, end)
            &&& is_done(end.memory, pid)
            &&& end.handled == state.handled
            &&& end.position > state.position
            &&& !(action_of(policy, end) matches ActionView::Attempt { pid: asked, .. } && asked
                == pid)
        },
    decreases times,
{
    if times > 0 {
        let earlier = failed(policy, state, (times - 1) as nat);
        lemma_retry_bound(policy, state, (times - 1) as nat);
        assert(earlier == ScanState { attempts: (times - 1) as nat, ..state });
        if times == policy.retry_attempts {
            let pid = state.processes[state.position as int].pid;
            let moved = ScanState {
                memory: done(earlier.memory, pid),
                position: earlier.position + 1,
                attempts: 0,
                ..earlier
            };
            lemma_settled(policy, moved);
            assert(is_done(moved.memory, pid));
        }
    }
}

/// Whether the cycle is through with every process before its position:
/// each is remembered, and each that the policy admits is done with.
pub open spec fn traversed(policy: Policy, state: ScanState) -> bool {
    forall|k: int|
        0 <= k < state.position && k < state.processes.len() ==> {
            let process = #[trigger] state.processes[k];
            &&& state.memory.contains_key(process.pid)
            &&& policy.admits(process.name) ==> is_done(state.memory, process.pid)
        }
}

/// Moving on keeps the cycle through with what lies before its position.
pub proof fn lemma_settled_traversed(policy: Policy, state: ScanState)
    requires
        state.position <= state.processes.len(),
        traversed(policy, state),
    ensures
        traversed(policy, settled(policy, state)),
    decreases state.processes.len() - state.position,
{
    if state.position < state.processes.len() {
        let process = state.processes[state.position as int];
        if is_done(state.memory, process.pid) {
            let next = ScanState { position: state.position + 1, ..state };
            assert(traversed(policy, next));
            lemma_settled_traversed(policy, next);
        } else if policy.admits(process.name) {
            let stay = ScanState { memory: noted(state.memory, process), ..state };
            assert forall|k: int| 0 <= k < stay.position && k < stay.processes.len() implies {
                let earlier = #[trigger] stay.processes[k];
                &&& stay.memory.contains_key(earlier.pid)
                &&& policy.admits(earlier.name) ==> is_done(stay.memory, earlier.pid)
            } by {
                let earlier = state.processes[k];
                assert(state.memory.contains_key(earlier.pid));
            }
        } else {
            let next = ScanState {
                memory: noted(state.memory, process),
                position: state.position + 1,
                ..state
            };
            assert forall|k: int| 0 <= k < next.position && k < next.processes.len() implies {
                let earlier = #[trigger] next.processes[k];
                &&& next.memory.contains_key(earlier.pid)
                &&& policy.admits(earlier.name) ==> is_done(next.memory, earlier.pid)
            } by {
                if k < state.position {
                    let earlier = state.processes[k];
                    assert(state.memory.contains_key(earlier.pid));
                }
            }
            lemma_settled_traversed(policy, next);
        }
    }
}

/// The outcome of an attempt keeps the cycle through with what lies before
/// its position.
pub proof fn lemma_completed_traversed(policy: Policy, state: ScanState, succeeded: bool)
    requires
        state.position <= state.processes.len(),
        traversed(policy, state),
    ensures
        traversed(policy, completed(policy, state, succeeded)),
{
    if state.position < state.processes.len() {
        let pid = state.processes[state.position as int].pid;
        match retry_decision(policy, state.attempts + 1, succeeded) {
            RetryDecision::Retry { .. } => {},
            _ => {
                let moved = ScanState {
                    memory: done(state.memory, pid),
                    position: state.position + 1,
                    attempts: 0,
                    handled: if succeeded {
                        state.handled + 1
                    } else {
                        state.handled
                    },
                    ..state
                };
                assert forall|k: int| 0 <= k < moved.position && k < moved.processes.len() implies {
                    let earlier = #[trigger] moved.processes[k];
                    &&& moved.memory.contains_key(earlier.pid)
                    &&& policy.admits(earlier.name) ==> is_done(moved.memory, earlier.pid)
                } by {
                    if k < state.position {
                        let earlier = state.processes[k];
                        assert(state.memory.contains_key(earlier.pid));
                    }
                }
                lemma_settled_traversed(policy, moved);
            },
        }
    }
}

/// Scanning is idempotent. Once a cycle is over and through with its
/// snapshot, a new scan of the same snapshot on the memory that it left asks
/// for nothing, steers nothing and leaves the memory as it is.
pub proof fn lemma_rescan_is_idle(policy: Policy, state: ScanState)
    requires
        state.position == state.processes.len(),
        traversed(policy, state),
    ensures
        begun(policy, state.memory, state.processes) == (ScanState {
            memory: state.memory,
            processes: state.processes,
            position: state.processes.len(),
            attempts: 0,
            handled: 0,
        }),
        action_of(policy, begun(policy, state.memory, state.processes)) == (ActionView::Finished {
            handled: 0,
        }),
{
    lemma_passes_over(policy, state, 0);
}

/// A scan that starts at `from` passes over every process of a snapshot that
/// an earlier cycle is through with.
proof fn lemma_passes_over(policy: Policy, state: ScanState, from: nat)
    requires
        state.position == state.processes.len(),
        traversed(policy, state),
        from <= state.processes.len(),
    ensures
        settled(
            policy,
            ScanState {
                memory: state.memory,
                processes: state.processes,
                position: from,
                attempts: 0,
                handled: 0,
            },
        ) == (ScanState {
            memory: state.memory,
            processes: state.processes,
            position: state.processes.len(),
            attempts: 0,
            handled: 0,
        }),
    decreases state.processes.len() - from,
{
    if from < state.processes.len() {
        let process = state.processes[from as int];
        assert(state.memory.contains_key(process.pid));
        assert(noted(state.memory, process) == state.memory);
        lemma_passes_over(policy, state, from + 1);
    }
}

} // verus!
