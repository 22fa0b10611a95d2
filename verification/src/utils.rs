pub mod error;
pub mod logger;
pub mod text;

pub use error::ServiceError;
