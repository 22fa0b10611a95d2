//! What the service loop is told from outside: when to stop, and where its
//! configuration lies.

use vstd::prelude::*;
use crate::utils::text::joined;

verus! {

/// The request to stop the service. Once made it stays.
#[derive(Debug)]
pub struct ServiceControl {
    shutdown: bool,
}

impl ServiceControl {
    /// Whether a stop was requested.
    pub closed spec fn requested(&self) -> bool {
        self.shutdown
    }

    /// A control on which no stop was requested yet.
    pub fn new() -> (control: ServiceControl)
        ensures
            !control.requested(),
    {
        ServiceControl { shutdown: false }
    }

    /// Whether the loop is to stop before its next cycle.
    pub fn should_shutdown(&self) -> (stop: bool)
        ensures
            stop == self.requested(),
    {
        self.shutdown
    }

    /// Requests the stop.
    pub fn request_shutdown(&mut self)
        ensures
            final(self).requested(),
    {
        self.shutdown = true;
    }
}

/// The path of the service's configuration under a program-data directory.
pub open spec fn service_config_path(program_data: Option<String>) -> Seq<char> {
    match program_data {
        Some(directory) => directory@ + "\\ProcessCpuAuto\\config.toml"@,
        None => "C:\\ProgramData\\ProcessCpuAuto\\config.toml"@,
    }
}

/// Where the service looks for its configuration: under the program-data
/// directory of the environment, or under the usual one when the environment
/// names none.
pub fn get_service_config_path(program_data: Option<String>) -> (path: String)
    ensures
        path@ == service_config_path(program_data),
{
    match program_data {
        Some(directory) => joined(directory.as_str(), "\\ProcessCpuAuto\\config.toml"),
        None => "C:\\ProgramData\\ProcessCpuAuto\\config.toml".to_string(),
    }
}

} // verus!
