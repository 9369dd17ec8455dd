//! The server side: connection bookkeeping, message decisions, teams and
//! the checks on stored records.

pub mod handler;
pub mod records;
pub mod teams;
pub mod ws;
