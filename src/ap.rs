//! The access-point daemon side.
pub mod actor;
pub mod event;
pub mod types;

pub use actor::Broadcast;
pub use types::{Config, Status};
