//! The configuration snapshot that the service runs with, and its defaults.

use vstd::prelude::*;
use crate::utils::text::{lowercase, same_text, to_lowercase};

verus! {

/// The whole configuration.
#[derive(Debug, Clone)]
pub struct Config {
    pub service: ServiceConfig,
    pub cpu: CpuConfig,
    pub whitelist: WhitelistConfig,
    pub advanced: AdvancedConfig,
}

/// How often processes are scanned and how much is logged.
#[derive(Debug, Clone)]
pub struct ServiceConfig {
    pub scan_interval_ms: u64,
    pub log_level: String,
}

/// How the core topology is found.
#[derive(Debug, Clone)]
pub struct CpuConfig {
    pub detection_mode: String,
    pub p_cores: Vec<u32>,
    pub e_cores: Vec<u32>,
}

/// Which processes are steered.
#[derive(Debug, Clone)]
pub struct WhitelistConfig {
    pub match_mode: String,
    pub processes: Vec<String>,
    pub exclude_processes: Vec<String>,
}

/// Retention of the process memory and the retry policy.
#[derive(Debug, Clone)]
pub struct AdvancedConfig {
    pub process_existing_on_startup: bool,
    pub cache_cleanup_interval_secs: u64,
    pub retry_attempts: u32,
    pub retry_delay_ms: u64,
}

/// How a whitelist pattern is held against a process name.
#[derive(Debug, Clone, Copy, PartialEq, Eq, Structural)]
pub enum MatchMode {
    Exact,
    Wildcard,
    Regex,
}

/// The mode that a lower-case name selects; unknown names select `Wildcard`.
pub open spec fn match_mode_named(lower: Seq<char>) -> MatchMode {
    if lower == "exact"@ {
        MatchMode::Exact
    } else if lower == "regex"@ {
        MatchMode::Regex
    } else {
        MatchMode::Wildcard
    }
}

impl MatchMode {
    /// Picks the mode for a name that is already in lower case.
    pub fn from_lowercase(lower: &str) -> (mode: MatchMode)
        ensures
            mode == match_mode_named(lower@),
    {
        if same_text(lower, "exact") {
            MatchMode::Exact
        } else if same_text(lower, "regex") {
            MatchMode::Regex
        } else {
            MatchMode::Wildcard
        }
    }

    /// Picks the mode for a configured name, whatever its case.
    pub fn from_str(s: &str) -> (mode: MatchMode)
        ensures
            mode == match_mode_named(lowercase(s@)),
    {
        let lower = to_lowercase(s);
        MatchMode::from_lowercase(lower.as_str())
    }
}

pub fn default_scan_interval() -> (ms: u64)
    ensures
        ms == 1000,
{
    1000
}

pub fn default_log_level() -> (level: String)
    ensures
        level@ == "info"@,
{
    "info".to_string()
}

pub fn default_detection_mode() -> (mode: String)
    ensures
        mode@ == "auto"@,
{
    "auto".to_string()
}

pub fn default_match_mode() -> (mode: String)
    ensures
        mode@ == "wildcard"@,
{
    "wildcard".to_string()
}

pub fn default_cache_cleanup_interval() -> (secs: u64)
    ensures
        secs == 300,
{
    300
}

pub fn default_retry_attempts() -> (attempts: u32)
    ensures
        attempts == 3,
{
    3
}

pub fn default_retry_delay() -> (ms: u64)
    ensures
        ms == 100,
{
    100
}

impl ServiceConfig {
    pub open spec fn is_default(self) -> bool {
        self.scan_interval_ms == 1000 && self.log_level@ == "info"@
    }
}

impl Default for ServiceConfig {
    fn default() -> (config: Self)
        ensures
            config.is_default(),
    {
        ServiceConfig { scan_interval_ms: default_scan_interval(), log_level: default_log_level() }
    }
}

impl CpuConfig {
    pub open spec fn is_default(self) -> bool {
        &&& self.detection_mode@ == "auto"@
        &&& self.p_cores@.len() == 0
        &&& self.e_cores@.len() == 0
    }
}

impl Default for CpuConfig {
    fn default() -> (config: Self)
        ensures
            config.is_default(),
    {
        CpuConfig {
            detection_mode: default_detection_mode(),
            p_cores: Vec::new(),
            e_cores: Vec::new(),
        }
    }
}

impl WhitelistConfig {
    pub open spec fn is_default(self) -> bool {
        &&& self.match_mode@ == "wildcard"@
        &&& self.processes@.len() == 0
        &&& self.exclude_processes.deep_view() == seq!["system"@, "svchost.exe"@]
    }
}

impl Default for WhitelistConfig {
    fn default() -> (config: Self)
        ensures
            config.is_default(),
    {
        let mut exclude_processes: Vec<String> = Vec::new();
        exclude_processes.push("system".to_string());
        exclude_processes.push("svchost.exe".to_string());
        assert(exclude_processes.deep_view() =~= seq!["system"@, "svchost.exe"@]);
        WhitelistConfig { match_mode: default_match_mode(), processes: Vec::new(), exclude_processes }
    }
}

impl AdvancedConfig {
    pub open spec fn is_default(self) -> bool {
        &&& !self.process_existing_on_startup
        &&& self.cache_cleanup_interval_secs == 300
        &&& self.retry_attempts == 3
        &&& self.retry_delay_ms == 100
    }
}

impl Default for AdvancedConfig {
    fn default() -> (config: Self)
        ensures
            config.is_default(),
    {
        AdvancedConfig {
            process_existing_on_startup: false,
            cache_cleanup_interval_secs: default_cache_cleanup_interval(),
            retry_attempts: default_retry_attempts(),
            retry_delay_ms: default_retry_delay(),
        }
    }
}

impl Config {
    /// Every section holds its defaults.
    pub open spec fn is_default(self) -> bool {
        &&& self.service.is_default()
        &&& self.cpu.is_default()
        &&& self.whitelist.is_default()
        &&& self.advanced.is_default()
    }

    /// What the scan cycle asks of a configuration: at least one attempt per
    /// process.
    pub open spec fn valid(self) -> bool {
        self.advanced.retry_attempts >= 1
    }
}

impl Default for Config {
    fn default() -> (config: Self)
        ensures
            config.is_default(),
            config.valid(),
    {
        Config {
            service: ServiceConfig::default(),
            cpu: CpuConfig::default(),
            whitelist: WhitelistConfig::default(),
            advanced: AdvancedConfig::default(),
        }
    }
}

} // verus!
