//! The service loop: scan, report, sweep the memory when a sweep is due,
//! sleep, and again. The loop itself runs outside; here is what it decides.

use vstd::prelude::*;
use std::sync::Arc;
use crate::config::settings::{match_mode_named, Config};
use crate::cpu::affinity::AffinityManager;
use crate::cpu::detector::{detectable, detection, CpuDetector, SystemProbe};
use crate::cpu::types::{detection_mode_named, mask_of, CoreInfo, DetectionMode};
use crate::process::cache::{
    age,
    evicted,
    handled_pids,
    stale_pids,
    untimed,
    CacheEntry,
    NANOS_PER_SEC,
};
use crate::process::manager::{
    action_of,
    begun,
    cache_stats_text,
    completed,
    kept,
    pending_pid,
    Policy,
    ProcessManager,
    ScanAction,
    ScanCycle,
    ScanState,
};
use crate::process::monitor::{process_views, ProcessInfo};
use crate::utils::text::lowercase;
use crate::utils::ServiceError;

verus! {

/// What one turn of the service loop has to report, and how long to sleep
/// before the next.
#[derive(Debug)]
pub struct CycleReport {
    /// The number of processes steered by the scan, where it steered any.
    pub processed: Option<usize>,
    /// The message of the error that the scan ended with, if it did.
    pub scan_error: Option<String>,
    /// The number of entries that the sweep forgot, where a sweep was due.
    pub removed: Option<usize>,
    /// The counts of the memory after the sweep, where a sweep was due.
    pub cache_stats: Option<String>,
    /// The milliseconds to sleep before the next scan.
    pub sleep_ms: u64,
}

/// Whether a sweep of the memory is due at `now`, the last one having been
/// at `last_cleanup`.
pub open spec fn cleanup_due(last_cleanup: nat, now: nat, interval: nat) -> bool {
    age(now, last_cleanup) >= interval
}

/// The count that a scan reports: none when it failed or steered nothing.
pub open spec fn reported_count(scanned: Result<usize, ServiceError>) -> Option<usize> {
    match scanned {
        Ok(count) => if count > 0 {
            Some(count)
        } else {
            None
        },
        Err(_) => None,
    }
}

/// Runs the service: owns the configuration and the process manager.
pub struct ServiceRunner {
    config: Arc<Config>,
    process_manager: ProcessManager,
    last_cleanup: u128,
}

/// Whether a runner can be built: the configuration allows at least one
/// attempt per process, and every core that detection can come upon in the
/// configured mode has a bit in an affinity mask.
pub open spec fn startable(config: Config, probe: SystemProbe) -> bool {
    &&& config.valid()
    &&& detectable(
        detection_mode_named(lowercase(config.cpu.detection_mode@)),
        config.cpu.p_cores@,
        config.cpu.e_cores@,
        probe,
    )
}

/// What building a runner yields: the error of the detection, or a runner
/// with an empty memory that scans by the configured rules and steers to the
/// performance cores that were detected.
pub open spec fn built(config: Config, probe: SystemProbe, result: Result<ServiceRunner, ServiceError>)
    -> bool {
    match detection(
        detection_mode_named(lowercase(config.cpu.detection_mode@)),
        config.cpu.p_cores@,
        config.cpu.e_cores@,
        probe,
    ) {
        Ok(lists) => {
            &&& result is Ok
            &&& result->Ok_0.wf()
            &&& result->Ok_0.config() == config
            &&& result->Ok_0.memory() == Map::<u32, CacheEntry>::empty()
            &&& result->Ok_0.policy() == (Policy {
                mode: match_mode_named(lowercase(config.whitelist.match_mode@)),
                whitelist: config.whitelist.processes.deep_view(),
                exclusions: config.whitelist.exclude_processes.deep_view(),
                retry_attempts: config.advanced.retry_attempts as nat,
                retry_delay_ms: config.advanced.retry_delay_ms,
                mask: mask_of(lists.0),
            })
            &&& result->Ok_0.topology().wf()
            &&& result->Ok_0.topology().p_cores@ == lists.0
            &&& result->Ok_0.topology().e_cores@ == lists.1
        },
        Err(detail) => result is Err && result->Err_0 is CpuDetection && result->Err_0.detail()
            == detail,
    }
}

impl ServiceRunner {
    /// The runner is consistent.
    pub closed spec fn wf(&self) -> bool {
        &&& self.process_manager.wf()
        &&& self.process_manager.max_age() == self.config.advanced.cache_cleanup_interval_secs
            * NANOS_PER_SEC
    }

    /// The configuration that the runner was built with.
    pub closed spec fn config(&self) -> Config {
        *self.config
    }

    /// The rules that the runner scans by.
    pub closed spec fn policy(&self) -> Policy {
        self.process_manager.policy()
    }

    /// The topology that was detected.
    pub closed spec fn topology(&self) -> CoreInfo {
        self.process_manager.topology()
    }

    /// The memory of processes, with its times.
    pub closed spec fn memory(&self) -> Map<u32, CacheEntry> {
        self.process_manager.memory()
    }

    /// The time of the last sweep of the memory, in nanoseconds on the
    /// memory's clock.
    pub closed spec fn last_cleanup(&self) -> nat {
        self.last_cleanup as nat
    }

    /// The time between two sweeps, and the age at which an entry is
    /// forgotten, in nanoseconds.
    pub open spec fn interval(&self) -> nat {
        (self.config().advanced.cache_cleanup_interval_secs * NANOS_PER_SEC) as nat
    }

    /// The state of a cycle run by this runner.
    pub closed spec fn state(&self, cycle: &ScanCycle) -> ScanState {
        self.process_manager.state(cycle)
    }

    /// Builds the runner from a configuration and from what the machine
    /// reports of its processors: detects the topology in the configured
    /// mode and starts with an empty memory. The time to the first sweep of
    /// the memory runs from now. Fails where detection fails.
    pub fn new(config: Config, probe: &SystemProbe) -> (result: Result<ServiceRunner, ServiceError>)
        requires
            startable(config, *probe),
        ensures
            built(config, *probe, result),
    {
        let detection_mode = DetectionMode::from_str(config.cpu.detection_mode.as_str());
        let p_cores = config.cpu.p_cores.clone();
        let e_cores = config.cpu.e_cores.clone();
        let core_info = match CpuDetector::detect(detection_mode, p_cores, e_cores, probe) {
            Ok(core_info) => core_info,
            Err(error) => {
                return Err(error);
            },
        };
        let config = Arc::new(config);
        let affinity_manager = Arc::new(AffinityManager::new(core_info));
        let process_manager = ProcessManager::new(Arc::clone(&config), affinity_manager);
        let last_cleanup = process_manager.now();
        Ok(ServiceRunner { config, process_manager, last_cleanup })
    }

    /// Builds the runner as `new` does, where the configuration allows at
    /// least one attempt per process and every core that detection can come
    /// upon has a bit in an affinity mask; builds nothing otherwise.
    pub fn start(config: Config, probe: &SystemProbe) -> (started: Option<
        Result<ServiceRunner, ServiceError>,
    >)
        ensures
            match started {
                Some(result) => startable(config, *probe) && built(config, *probe, result),
                None => !startable(config, *probe),
            },
    {
        let detection_mode = DetectionMode::from_str(config.cpu.detection_mode.as_str());
        if config.advanced.retry_attempts >= 1 && CpuDetector::can_detect(
            detection_mode,
            &config.cpu.p_cores,
            &config.cpu.e_cores,
            probe,
        ) {
            Some(ServiceRunner::new(config, probe))
        } else {
            None
        }
    }

    /// The topology that was detected, shared.
    pub fn get_core_info(&self) -> (info: Arc<CoreInfo>)
        ensures
            *info == self.topology(),
    {
        self.process_manager.get_core_info()
    }

    /// Ends one turn of the service loop at `now`: reports the scan, sweeps
    /// the memory if the time between sweeps has passed since the last one,
    /// and tells how long to sleep.
    pub fn run_at(&mut self, scanned: &Result<usize, ServiceError>, now: u128) -> (report:
        CycleReport)
        requires
            old(self).wf(),
        ensures
            final(self).wf(),
            final(self).config() == old(self).config(),
            final(self).policy() == old(self).policy(),
            report.sleep_ms == old(self).config().service.scan_interval_ms,
            report.processed == reported_count(*scanned),
            match *scanned {
                Ok(_) => report.scan_error is None,
                Err(error) => report.scan_error is Some && report.scan_error->0@ == error.prefix()
                    + error.detail(),
            },
            if cleanup_due(old(self).last_cleanup(), now as nat, old(self).interval()) {
                &&& final(self).memory() == evicted(
                    old(self).memory(),
                    now as nat,
                    old(self).interval(),
                )
                &&& final(self).last_cleanup() == now
                &&& report.removed is Some
                &&& report.removed->0 == stale_pids(
                    old(self).memory(),
                    now as nat,
                    old(self).interval(),
                ).len()
                &&& report.cache_stats is Some
                &&& report.cache_stats->0@ == cache_stats_text(
                    final(self).memory().dom().len(),
                    handled_pids(final(self).memory()).len(),
                )
            } else {
                &&& final(self).memory() == old(self).memory()
                &&& final(self).last_cleanup() == old(self).last_cleanup()
                &&& report.removed is None
                &&& report.cache_stats is None
            },
    {
        let (processed, scan_error) = match scanned {
            Ok(count) => (
                if *count > 0 {
                    Some(*count)
                } else {
                    None
                },
                None,
            ),
            Err(error) => (None, Some(error.message())),
        };
        let interval: u128 = (self.config.advanced.cache_cleanup_interval_secs as u128)
            * NANOS_PER_SEC;
        let elapsed: u128 = if now >= self.last_cleanup {
            now - self.last_cleanup
        } else {
            0
        };
        let mut removed: Option<usize> = None;
        let mut cache_stats: Option<String> = None;
        if elapsed >= interval {
            removed = Some(self.process_manager.cleanup_cache_at(now));
            cache_stats = Some(self.process_manager.get_cache_stats());
            self.last_cleanup = now;
        }
        CycleReport {
            processed,
            scan_error,
            removed,
            cache_stats,
            sleep_ms: self.config.service.scan_interval_ms,
        }
    }

    /// Ends one turn of the service loop now: as `run_at` does, at the time
    /// that the memory's clock shows.
    pub fn run(&mut self, scanned: &Result<usize, ServiceError>) -> (report: CycleReport)
        requires
            old(self).wf(),
        ensures
            final(self).wf(),
            final(self).config() == old(self).config(),
            final(self).policy() == old(self).policy(),
            report.sleep_ms == old(self).config().service.scan_interval_ms,
            report.processed == reported_count(*scanned),
            match *scanned {
                Ok(_) => report.scan_error is None,
                Err(error) => report.scan_error is Some && report.scan_error->0@ == error.prefix()
                    + error.detail(),
            },
            exists|now: nat|
                if #[trigger] cleanup_due(old(self).last_cleanup(), now, old(self).interval()) {
                    &&& final(self).memory() == evicted(old(self).memory(), now, old(self).interval())
                    &&& final(self).last_cleanup() == now
                    &&& report.removed is Some
                    &&& report.removed->0 == stale_pids(
                        old(self).memory(),
                        now,
                        old(self).interval(),
                    ).len()
                    &&& report.cache_stats is Some
                    &&& report.cache_stats->0@ == cache_stats_text(
                        final(self).memory().dom().len(),
                        handled_pids(final(self).memory()).len(),
                    )
                } else {
                    &&& final(self).memory() == old(self).memory()
                    &&& final(self).last_cleanup() == old(self).last_cleanup()
                    &&& report.removed is None
                    &&& report.cache_stats is None
                },
    {
        let now = self.process_manager.now();
        let report = self.run_at(scanned, now);
        proof {
            let at = now as nat;
            assert(cleanup_due(old(self).last_cleanup(), at, old(self).interval()) || !cleanup_due(
                old(self).last_cleanup(),
                at,
                old(self).interval(),
            ));
        }
        report
    }

    /// Begins a scan cycle on the snapshot that the enumeration gave.
    pub fn run_once(&mut self, snapshot: Result<Vec<ProcessInfo>, ServiceError>) -> (result: Result<
        ScanCycle,
        ServiceError,
    >)
        requires
            old(self).wf(),
        ensures
            final(self).wf(),
            final(self).config() == old(self).config(),
            final(self).policy() == old(self).policy(),
            final(self).last_cleanup() == old(self).last_cleanup(),
            match snapshot {
                Ok(processes) => result is Ok && result->Ok_0.wf() && final(self).state(
                    &result->Ok_0,
                ) == begun(old(self).policy(), untimed(old(self).memory()), process_views(processes@))
                    && kept(old(self).memory(), final(self).memory(), None),
                Err(error) => result == Err::<ScanCycle, ServiceError>(error) && final(self).memory()
                    == old(self).memory(),
            },
    {
        self.process_manager.scan_and_process(snapshot)
    }

    /// What the cycle asks for next.
    pub fn next_action(&self, cycle: &ScanCycle) -> (action: ScanAction)
        requires
            cycle.wf(),
        ensures
            action@ == action_of(self.policy(), self.state(cycle)),
    {
        self.process_manager.next_action(cycle)
    }

    /// Takes the outcome of the attempt that the cycle asked for and moves
    /// on.
    pub fn attempt_completed(&mut self, cycle: &mut ScanCycle, outcome: &Result<(), ServiceError>)
        requires
            old(self).wf(),
            old(cycle).wf(),
        ensures
            final(self).wf(),
            final(cycle).wf(),
            final(self).config() == old(self).config(),
            final(self).policy() == old(self).policy(),
            final(self).last_cleanup() == old(self).last_cleanup(),
            final(self).state(final(cycle)) == completed(
                old(self).policy(),
                old(self).state(old(cycle)),
                outcome is Ok,
            ),
            kept(old(self).memory(), final(self).memory(), pending_pid(old(self).state(old(cycle)))),
            final(cycle).position() == old(cycle).position() ==> final(self).memory() == old(
                self,
            ).memory(),
    {
        self.process_manager.attempt_completed(cycle, outcome)
    }
}

} // verus!
