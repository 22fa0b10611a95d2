pub mod loader;
pub mod settings;

pub use loader::ConfigLoader;
pub use settings::{AdvancedConfig, Config, CpuConfig, MatchMode, ServiceConfig, WhitelistConfig};
