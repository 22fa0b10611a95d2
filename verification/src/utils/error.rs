//! The error type shared by every part of the service.

use vstd::prelude::*;
use crate::utils::text::joined;

verus! {

/// What can go wrong in the service; each kind carries a human-readable
/// detail.
#[derive(Debug, Clone)]
pub enum ServiceError {
    Config(String),
    CpuDetection(String),
    ProcessMonitoring(String),
    AffinitySetting(String),
    WindowsApi(String),
    Io(String),
    TomlParse(String),
    Service(String),
    PermissionDenied(String),
}

impl ServiceError {
    /// The detail carried by the error.
    pub open spec fn detail(self) -> Seq<char> {
        match self {
            ServiceError::Config(d) => d@,
            ServiceError::CpuDetection(d) => d@,
            ServiceError::ProcessMonitoring(d) => d@,
            ServiceError::AffinitySetting(d) => d@,
            ServiceError::WindowsApi(d) => d@,
            ServiceError::Io(d) => d@,
            ServiceError::TomlParse(d) => d@,
            ServiceError::Service(d) => d@,
            ServiceError::PermissionDenied(d) => d@,
        }
    }

    /// The words that introduce each kind of error in a message.
    pub open spec fn prefix(self) -> Seq<char> {
        match self {
            ServiceError::Config(_) => "Configuration error: "@,
            ServiceError::CpuDetection(_) => "CPU detection error: "@,
            ServiceError::ProcessMonitoring(_) => "Process monitoring error: "@,
            ServiceError::AffinitySetting(_) => "Affinity setting error: "@,
            ServiceError::WindowsApi(_) => "Windows API error: "@,
            ServiceError::Io(_) => "IO error: "@,
            ServiceError::TomlParse(_) => "TOML parsing error: "@,
            ServiceError::Service(_) => "Service error: "@,
            ServiceError::PermissionDenied(_) => "Permission denied: "@,
        }
    }

    /// The full message: the kind's prefix followed by the detail.
    pub fn message(&self) -> (text: String)
        ensures
            text@ == self.prefix() + self.detail(),
    {
        match self {
            ServiceError::Config(d) => joined("Configuration error: ", d.as_str()),
            ServiceError::CpuDetection(d) => joined("CPU detection error: ", d.as_str()),
            ServiceError::ProcessMonitoring(d) => joined("Process monitoring error: ", d.as_str()),
            ServiceError::AffinitySetting(d) => joined("Affinity setting error: ", d.as_str()),
            ServiceError::WindowsApi(d) => joined("Windows API error: ", d.as_str()),
            ServiceError::Io(d) => joined("IO error: ", d.as_str()),
            ServiceError::TomlParse(d) => joined("TOML parsing error: ", d.as_str()),
            ServiceError::Service(d) => joined("Service error: ", d.as_str()),
            ServiceError::PermissionDenied(d) => joined("Permission denied: ", d.as_str()),
        }
    }
}

} // verus!
