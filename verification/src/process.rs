pub mod cache;
pub mod manager;
pub mod matcher;
pub mod monitor;

pub use cache::ProcessCache;
pub use manager::ProcessManager;
pub use monitor::{ProcessInfo, ProcessMonitor};
