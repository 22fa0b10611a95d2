//! Steers whitelisted processes onto the performance cores of a hybrid CPU.
//!
//! The crate holds the decisions of the service: the core topology and its
//! affinity masks, the memory of processes already seen, the whitelist
//! matcher, and the scan cycle that ties them together. Everything that talks
//! to the operating system hands its observations in as plain values and is
//! told, as plain values, what to do next.

pub mod config;
pub mod cpu;
pub mod process;
pub mod service;
pub mod utils;

pub use config::{Config, ConfigLoader};
pub use cpu::{AffinityManager, CoreInfo, CpuDetector, DetectionMode};
pub use process::{ProcessCache, ProcessManager, ProcessMonitor};
pub use service::ServiceRunner;
pub use utils::ServiceError;
