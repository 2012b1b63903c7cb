//! The supplicant (station) side.
pub mod actor;
pub mod command;
pub mod event;
pub mod network;
pub mod reply;
pub mod scan;
pub mod status;

pub use actor::{Broadcast, SelectResult};
pub use command::{KeyMgmt, SetNetwork};
pub use network::NetworkResult;
pub use scan::ScanResult;
pub use status::{Status, parse_status};
