use process_cpu_auto::config::settings::{
    default_cache_cleanup_interval, default_detection_mode, default_log_level, default_match_mode,
    default_retry_attempts, default_retry_delay, default_scan_interval, MatchMode,
};
use process_cpu_auto::config::{AdvancedConfig, Config, ConfigLoader, CpuConfig, WhitelistConfig};
use process_cpu_auto::cpu::DetectionMode;
use process_cpu_auto::utils::logger::{
    get_service_log_path, level_from_lowercase, parse_log_level, LogLevel,
};

#[test]
fn test_default_config() {
    let config = Config::default();
    assert_eq!(config.service.scan_interval_ms, 1000);
    assert_eq!(config.service.log_level, "info");
}

#[test]
fn default_sections_hold_the_documented_values() {
    let cpu = CpuConfig::default();
    assert_eq!(cpu.detection_mode, "auto");
    assert!(cpu.p_cores.is_empty());
    assert!(cpu.e_cores.is_empty());

    let whitelist = WhitelistConfig::default();
    assert_eq!(whitelist.match_mode, "wildcard");
    assert!(whitelist.processes.is_empty());
    assert_eq!(
        whitelist.exclude_processes,
        vec!["system".to_string(), "svchost.exe".to_string()]
    );

    let advanced = AdvancedConfig::default();
    assert!(!advanced.process_existing_on_startup);
    assert_eq!(advanced.cache_cleanup_interval_secs, 300);
    assert_eq!(advanced.retry_attempts, 3);
    assert_eq!(advanced.retry_delay_ms, 100);
}

#[test]
fn default_value_functions() {
    assert_eq!(default_scan_interval(), 1000);
    assert_eq!(default_log_level(), "info");
    assert_eq!(default_detection_mode(), "auto");
    assert_eq!(default_match_mode(), "wildcard");
    assert_eq!(default_cache_cleanup_interval(), 300);
    assert_eq!(default_retry_attempts(), 3);
    assert_eq!(default_retry_delay(), 100);
}

#[test]
fn default_config_path() {
    assert_eq!(ConfigLoader::get_default_path(), "config.toml");
}

#[test]
fn match_mode_from_name() {
    assert_eq!(MatchMode::from_str("exact"), MatchMode::Exact);
    assert_eq!(MatchMode::from_str("EXACT"), MatchMode::Exact);
    assert_eq!(MatchMode::from_str("Regex"), MatchMode::Regex);
    assert_eq!(MatchMode::from_str("wildcard"), MatchMode::Wildcard);
    assert_eq!(MatchMode::from_str("anything else"), MatchMode::Wildcard);
    assert_eq!(MatchMode::from_str(""), MatchMode::Wildcard);
}

#[test]
fn match_mode_from_lowercase_is_case_sensitive() {
    assert_eq!(MatchMode::from_lowercase("exact"), MatchMode::Exact);
    assert_eq!(MatchMode::from_lowercase("regex"), MatchMode::Regex);
    assert_eq!(MatchMode::from_lowercase("Exact"), MatchMode::Wildcard);
}

#[test]
fn detection_mode_from_name() {
    assert_eq!(DetectionMode::from_str("manual"), DetectionMode::Manual);
    assert_eq!(DetectionMode::from_str("MANUAL"), DetectionMode::Manual);
    assert_eq!(DetectionMode::from_str("all_cores"), DetectionMode::AllCores);
    assert_eq!(DetectionMode::from_str("AllCores"), DetectionMode::AllCores);
    assert_eq!(DetectionMode::from_str("auto"), DetectionMode::Auto);
    assert_eq!(DetectionMode::from_str("something"), DetectionMode::Auto);
}

#[test]
fn detection_mode_from_lowercase_is_case_sensitive() {
    assert_eq!(DetectionMode::from_lowercase("manual"), DetectionMode::Manual);
    assert_eq!(DetectionMode::from_lowercase("allcores"), DetectionMode::AllCores);
    assert_eq!(DetectionMode::from_lowercase("Manual"), DetectionMode::Auto);
}

#[test]
fn log_level_from_name() {
    assert_eq!(parse_log_level("trace"), LogLevel::Trace);
    assert_eq!(parse_log_level("DEBUG"), LogLevel::Debug);
    assert_eq!(parse_log_level("Info"), LogLevel::Info);
    assert_eq!(parse_log_level("warn"), LogLevel::Warn);
    assert_eq!(parse_log_level("ERROR"), LogLevel::Error);
    assert_eq!(parse_log_level("verbose"), LogLevel::Info);
    assert_eq!(level_from_lowercase("warn"), LogLevel::Warn);
    assert_eq!(level_from_lowercase("WARN"), LogLevel::Info);
}

#[test]
fn service_log_path_follows_program_data() {
    assert_eq!(
        get_service_log_path(Some("D:\\Data".to_string())).unwrap(),
        "D:\\Data\\ProcessCpuAuto\\service.log"
    );
    assert_eq!(
        get_service_log_path(None).unwrap(),
        "C:\\ProgramData\\ProcessCpuAuto\\service.log"
    );
}
