//! Authentication tokens and the consistent-hash ring.

pub mod auth;
pub mod hashring;
