use process_cpu_auto::config::Config;
use process_cpu_auto::cpu::detector::{NativeQuery, ProcessorRecord, SystemProbe};
use process_cpu_auto::process::manager::ScanAction;
use process_cpu_auto::process::ProcessInfo;
use process_cpu_auto::service::service_manager::get_service_config_path;
use process_cpu_auto::service::{ServiceControl, ServiceRunner};
use process_cpu_auto::utils::ServiceError;

fn hybrid_probe() -> SystemProbe {
    SystemProbe {
        native: NativeQuery::Records(vec![
            ProcessorRecord { relationship: 0, efficiency_class: 1, group_mask: 0b0011 },
            ProcessorRecord { relationship: 0, efficiency_class: 0, group_mask: 0b1100 },
        ]),
        processor_count: 4,
    }
}

fn runner_for(whitelist: &[&str]) -> ServiceRunner {
    let mut config = Config::default();
    config.whitelist.processes = whitelist.iter().map(|p| p.to_string()).collect();
    config.advanced.cache_cleanup_interval_secs = 2;
    config.service.scan_interval_ms = 750;
    ServiceRunner::new(config, &hybrid_probe()).unwrap()
}

fn process(pid: u32, name: &str) -> ProcessInfo {
    ProcessInfo { pid, name: name.to_string(), parent_pid: 0 }
}

fn scan(runner: &mut ServiceRunner, snapshot: Vec<ProcessInfo>) -> (usize, Vec<(u32, usize)>) {
    let mut asked = Vec::new();
    let mut cycle = runner.run_once(Ok(snapshot)).unwrap();
    loop {
        match runner.next_action(&cycle) {
            ScanAction::Attempt { request, .. } => {
                asked.push((request.pid, request.affinity_mask));
                runner.attempt_completed(&mut cycle, &Ok(()));
            }
            ScanAction::Finished { handled } => return (handled, asked),
        }
    }
}

#[test]
fn shutdown_request_stays() {
    let mut control = ServiceControl::new();
    assert!(!control.should_shutdown());
    control.request_shutdown();
    assert!(control.should_shutdown());
    control.request_shutdown();
    assert!(control.should_shutdown());
}

#[test]
fn service_config_path_follows_program_data() {
    assert_eq!(
        get_service_config_path(Some("D:\\Data".to_string())),
        "D:\\Data\\ProcessCpuAuto\\config.toml"
    );
    assert_eq!(get_service_config_path(None), "C:\\ProgramData\\ProcessCpuAuto\\config.toml");
}

#[test]
fn runner_detects_and_steers_to_performance_cores() {
    let mut runner = runner_for(&["*.exe"]);
    let (handled, asked) =
        scan(&mut runner, vec![process(10, "game.exe"), process(11, "svchost.exe")]);
    assert_eq!(handled, 1);
    assert_eq!(asked, vec![(10, 0b0011)]);
}

#[test]
fn runner_fails_where_detection_fails() {
    let mut config = Config::default();
    config.cpu.detection_mode = "manual".to_string();
    match ServiceRunner::new(config, &hybrid_probe()) {
        Err(ServiceError::CpuDetection(detail)) => {
            assert_eq!(detail, "Manual mode requires at least P-cores to be specified")
        }
        _ => panic!("manual mode without performance cores must fail"),
    }
}

#[test]
fn runner_uses_the_configured_cores_in_manual_mode() {
    let mut config = Config::default();
    config.cpu.detection_mode = "Manual".to_string();
    config.cpu.p_cores = vec![2, 3];
    config.cpu.e_cores = vec![0, 1];
    config.whitelist.processes = vec!["game.exe".to_string()];
    let mut runner = ServiceRunner::new(config, &hybrid_probe()).unwrap();
    let (handled, asked) = scan(&mut runner, vec![process(5, "GAME.EXE")]);
    assert_eq!(handled, 1);
    assert_eq!(asked, vec![(5, 0b1100)]);
}

#[test]
fn failed_enumeration_is_handed_back() {
    let mut runner = runner_for(&["*.exe"]);
    let error = ServiceError::ProcessMonitoring("Failed to get first process".to_string());
    assert!(matches!(runner.run_once(Err(error)), Err(ServiceError::ProcessMonitoring(_))));
}

#[test]
fn turn_reports_the_scan() {
    let mut runner = runner_for(&["*.exe"]);
    let report = runner.run_at(&Ok(3), 0);
    assert_eq!(report.processed, Some(3));
    assert!(report.scan_error.is_none());
    assert_eq!(report.sleep_ms, 750);

    let quiet = runner.run_at(&Ok(0), 0);
    assert_eq!(quiet.processed, None);
    assert!(quiet.scan_error.is_none());

    let error = ServiceError::ProcessMonitoring("Failed to create process snapshot".to_string());
    let failed = runner.run_at(&Err(error), 0);
    assert_eq!(failed.processed, None);
    assert_eq!(
        failed.scan_error,
        Some("Process monitoring error: Failed to create process snapshot".to_string())
    );
    assert_eq!(failed.sleep_ms, 750);
}

#[test]
fn sweep_runs_when_the_interval_has_passed() {
    let mut runner = runner_for(&["*.exe"]);
    let (handled, _) = scan(&mut runner, vec![process(10, "game.exe"), process(11, "notes.txt")]);
    assert_eq!(handled, 1);
    let second: u128 = 1_000_000_000;
    let far: u128 = 1_000_000 * second;

    // The interval is two seconds. A sweep far in the future forgets both
    // entries and restarts the interval.
    let swept = runner.run_at(&Ok(1), far);
    assert_eq!(swept.removed, Some(2));
    assert_eq!(
        swept.cache_stats,
        Some("Cache stats - Total: 0, Processed: 0, Unprocessed: 0".to_string())
    );

    let early = runner.run_at(&Ok(0), far + 2 * second - 1);
    assert_eq!(early.removed, None);
    assert_eq!(early.cache_stats, None);

    let due = runner.run_at(&Ok(0), far + 2 * second);
    assert_eq!(due.removed, Some(0));
    assert_eq!(
        due.cache_stats,
        Some("Cache stats - Total: 0, Processed: 0, Unprocessed: 0".to_string())
    );

    let again = runner.run_at(&Ok(0), far + 3 * second);
    assert_eq!(again.removed, None);
}

#[test]
fn turn_with_the_real_clock_keeps_fresh_entries() {
    let mut runner = runner_for(&["*.exe"]);
    let (handled, _) = scan(&mut runner, vec![process(10, "game.exe")]);
    assert_eq!(handled, 1);
    let report = runner.run(&Ok(1));
    assert_eq!(report.processed, Some(1));
    assert_eq!(report.removed, None);
    assert_eq!(report.sleep_ms, 750);
    let (again, asked) = scan(&mut runner, vec![process(10, "game.exe")]);
    assert_eq!(again, 0);
    assert!(asked.is_empty());
}

#[test]
fn error_messages() {
    let cases = vec![
        (ServiceError::Config("c".to_string()), "Configuration error: c"),
        (ServiceError::CpuDetection("d".to_string()), "CPU detection error: d"),
        (ServiceError::ProcessMonitoring("m".to_string()), "Process monitoring error: m"),
        (ServiceError::AffinitySetting("a".to_string()), "Affinity setting error: a"),
        (ServiceError::WindowsApi("w".to_string()), "Windows API error: w"),
        (ServiceError::Io("i".to_string()), "IO error: i"),
        (ServiceError::TomlParse("t".to_string()), "TOML parsing error: t"),
        (ServiceError::Service("s".to_string()), "Service error: s"),
        (ServiceError::PermissionDenied("p".to_string()), "Permission denied: p"),
    ];
    for (error, expected) in cases {
        assert_eq!(error.message(), expected);
    }
}

#[test]
fn start_builds_what_new_builds() {
    let mut config = Config::default();
    config.whitelist.processes = vec!["*.exe".to_string()];
    let mut runner = ServiceRunner::start(config, &hybrid_probe()).unwrap().unwrap();
    let (handled, asked) = scan(&mut runner, vec![process(10, "game.exe")]);
    assert_eq!(handled, 1);
    assert_eq!(asked, vec![(10, 0b0011)]);

    let mut manual = Config::default();
    manual.cpu.detection_mode = "manual".to_string();
    assert!(matches!(
        ServiceRunner::start(manual, &hybrid_probe()),
        Some(Err(ServiceError::CpuDetection(_)))
    ));
}

#[test]
fn start_refuses_what_cannot_run() {
    let mut no_attempts = Config::default();
    no_attempts.advanced.retry_attempts = 0;
    assert!(ServiceRunner::start(no_attempts, &hybrid_probe()).is_none());

    let mut wide = Config::default();
    wide.cpu.detection_mode = "manual".to_string();
    wide.cpu.p_cores = vec![0, 64];
    assert!(ServiceRunner::start(wide, &hybrid_probe()).is_none());

    let mut many = Config::default();
    many.cpu.detection_mode = "all_cores".to_string();
    let probe = SystemProbe { native: NativeQuery::QueryFailed, processor_count: 65 };
    assert!(ServiceRunner::start(many, &probe).is_none());

    let crowded = SystemProbe {
        native: NativeQuery::Records(vec![
            ProcessorRecord { relationship: 0, efficiency_class: 1, group_mask: u64::MAX },
            ProcessorRecord { relationship: 0, efficiency_class: 0, group_mask: 1 },
        ]),
        processor_count: 4,
    };
    assert!(ServiceRunner::start(Config::default(), &crowded).is_none());
}
