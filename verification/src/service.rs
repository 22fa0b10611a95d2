pub mod runner;
pub mod service_manager;

pub use runner::ServiceRunner;
pub use service_manager::ServiceControl;
