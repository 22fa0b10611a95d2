//! Log levels as the configuration names them.

use vstd::prelude::*;
use crate::utils::text::{joined, lowercase, same_text, to_lowercase};
use crate::utils::ServiceError;

verus! {

/// How much the service logs.
#[derive(Debug, Clone, Copy, PartialEq, Eq, Structural)]
pub enum LogLevel {
    Trace,
    Debug,
    Info,
    Warn,
    Error,
}

/// The level that a lower-case name selects; unknown names select `Info`.
pub open spec fn level_named(lower: Seq<char>) -> LogLevel {
    if lower == "trace"@ {
        LogLevel::Trace
    } else if lower == "debug"@ {
        LogLevel::Debug
    } else if lower == "warn"@ {
        LogLevel::Warn
    } else if lower == "error"@ {
        LogLevel::Error
    } else {
        LogLevel::Info
    }
}

/// Picks the level for a name that is already in lower case.
pub fn level_from_lowercase(lower: &str) -> (level: LogLevel)
    ensures
        level == level_named(lower@),
{
    if same_text(lower, "trace") {
        LogLevel::Trace
    } else if same_text(lower, "debug") {
        LogLevel::Debug
    } else if same_text(lower, "warn") {
        LogLevel::Warn
    } else if same_text(lower, "error") {
        LogLevel::Error
    } else {
        LogLevel::Info
    }
}

/// Picks the level for a configured name, whatever its case.
pub fn parse_log_level(log_level: &str) -> (level: LogLevel)
    ensures
        level == level_named(lowercase(log_level@)),
{
    let lower = to_lowercase(log_level);
    level_from_lowercase(lower.as_str())
}

/// The path of the service's log file under a program-data directory.
pub open spec fn service_log_path(program_data: Option<String>) -> Seq<char> {
    match program_data {
        Some(directory) => directory@ + "\\ProcessCpuAuto\\service.log"@,
        None => "C:\\ProgramData\\ProcessCpuAuto\\service.log"@,
    }
}

/// Where the service writes its log: under the program-data directory of the
/// environment, or under the usual one when the environment names none.
pub fn get_service_log_path(program_data: Option<String>) -> (path: Result<String, ServiceError>)
    ensures
        path is Ok,
        path->Ok_0@ == service_log_path(program_data),
{
    match program_data {
        Some(directory) => Ok(joined(directory.as_str(), "\\ProcessCpuAuto\\service.log")),
        None => Ok("C:\\ProgramData\\ProcessCpuAuto\\service.log".to_string()),
    }
}

} // verus!
