//! The affinity manager: what is asked of the operating system for a process,
//! and what its answer amounts to.

use vstd::prelude::*;
use vstd::string::StringExecFns;
use std::sync::Arc;
use crate::cpu::types::CoreInfo;
use crate::utils::text::{decimal, decimal_digits, upper_hex, upper_hex_digits};
use crate::utils::ServiceError;

verus! {

/// A restriction to ask of the operating system: process `pid`, known as
/// `process_name`, is to run on the cores of `affinity_mask` only.
#[derive(Debug, Clone)]
pub struct AffinityRequest {
    pub pid: u32,
    pub affinity_mask: usize,
    pub process_name: String,
}

/// How the operating system answered a request.
#[derive(Debug, Clone, Copy, PartialEq, Eq, Structural)]
pub enum AffinityStatus {
    /// The process could not be opened: it is gone, or the rights are
    /// missing.
    OpenFailed,
    /// The process was opened but the mask was rejected.
    SetFailed,
    /// The mask is in force.
    Applied,
}

/// The detail of the error for a process that could not be opened.
pub open spec fn open_failure_text(pid: u32) -> Seq<char> {
    "Failed to open process with PID: "@ + decimal_digits(pid as nat)
        + " (insufficient permissions or process doesn't exist)"@
}

/// The detail of the error for a mask that was rejected.
pub open spec fn set_failure_text(affinity_mask: usize, process_name: Seq<char>, pid: u32) -> Seq<
    char,
> {
    "Failed to set affinity mask 0x"@ + upper_hex_digits(affinity_mask as nat) + " for process "@
        + process_name + " (PID: "@ + decimal_digits(pid as nat) + ")"@
}

/// The result of a request, given the system's answer.
pub open spec fn affinity_result(
    pid: u32,
    affinity_mask: usize,
    process_name: Seq<char>,
    status: AffinityStatus,
) -> Result<(), Seq<char>> {
    match status {
        AffinityStatus::OpenFailed => Err(open_failure_text(pid)),
        AffinityStatus::SetFailed => Err(set_failure_text(affinity_mask, process_name, pid)),
        AffinityStatus::Applied => Ok(()),
    }
}

/// Knows the topology and the mask that a steered process is restricted to.
pub struct AffinityManager {
    core_info: Arc<CoreInfo>,
}

impl AffinityManager {
    /// The topology that the manager was built with.
    pub closed spec fn core_info(&self) -> CoreInfo {
        *self.core_info
    }

    pub fn new(core_info: Arc<CoreInfo>) -> (manager: AffinityManager)
        ensures
            manager.core_info() == *core_info,
    {
        AffinityManager { core_info }
    }

    /// The request that restricts a process to the performance cores.
    pub fn set_affinity_to_p_cores(&self, pid: u32, process_name: &str) -> (request: AffinityRequest)
        ensures
            request.pid == pid,
            request.affinity_mask == self.core_info().p_core_mask,
            request.process_name@ == process_name@,
    {
        AffinityRequest {
            pid,
            affinity_mask: self.core_info.p_core_mask,
            process_name: process_name.to_owned(),
        }
    }

    /// What a request came to: success when the mask is in force, else the
    /// error that tells which step failed.
    pub fn set_affinity(
        &self,
        pid: u32,
        affinity_mask: usize,
        process_name: &str,
        status: AffinityStatus,
    ) -> (result: Result<(), ServiceError>)
        ensures
            match affinity_result(pid, affinity_mask, process_name@, status) {
                Ok(_) => result is Ok,
                Err(detail) => result is Err && result->Err_0 is AffinitySetting
                    && result->Err_0.detail() == detail,
            },
    {
        match status {
            AffinityStatus::Applied => Ok(()),
            AffinityStatus::OpenFailed => {
                let mut text = "Failed to open process with PID: ".to_owned();
                text.append(decimal(pid as u64).as_str());
                text.append(" (insufficient permissions or process doesn't exist)");
                Err(ServiceError::AffinitySetting(text))
            },
            AffinityStatus::SetFailed => {
                let mut text = "Failed to set affinity mask 0x".to_owned();
                text.append(upper_hex(affinity_mask as u64).as_str());
                text.append(" for process ");
                text.append(process_name);
                text.append(" (PID: ");
                text.append(decimal(pid as u64).as_str());
                text.append(")");
                Err(ServiceError::AffinitySetting(text))
            },
        }
    }

    /// The affinity mask of the performance cores.
    pub fn get_p_core_mask(&self) -> (mask: usize)
        ensures
            mask == self.core_info().p_core_mask,
    {
        self.core_info.p_core_mask
    }

    /// The topology, shared.
    pub fn get_core_info(&self) -> (info: Arc<CoreInfo>)
        ensures
            *info == self.core_info(),
    {
        Arc::clone(&self.core_info)
    }
}

} // verus!
