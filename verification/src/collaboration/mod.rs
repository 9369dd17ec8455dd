//! Multi-device collaborative downloading: teams, a shared task queue,
//! task distribution over a consistent-hash ring and peer file transfer.

pub mod client;
pub mod crypto;
pub mod discovery;
pub mod ids;
pub mod server;
pub mod transfer;
pub mod types;
