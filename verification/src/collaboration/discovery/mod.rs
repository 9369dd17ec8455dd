//! NAT type detection.

pub mod stun;

use vstd::prelude::*;

verus! {

/// Kind of NAT in front of a device.
#[derive(Clone, Copy, Debug, PartialEq, Eq, Structural)]
pub enum NatType {
    /// Not determined.
    Unknown,
    /// Maps each destination to a different public port (needs hole punching).
    Symmetric,
    /// Keeps one public port for all destinations (reachable).
    Cone,
}

} // verus!
