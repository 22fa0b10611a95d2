pub mod affinity;
pub mod detector;
pub mod types;

pub use affinity::AffinityManager;
pub use detector::CpuDetector;
pub use types::{CoreInfo, CoreType, DetectionMode};
