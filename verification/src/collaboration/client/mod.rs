//! The device side: the local task queue, connection bookkeeping and peer
//! discovery.

pub mod discovery;
pub mod queue;
pub mod ws;
