//! Where a device asks for its public address.

use crate::text::{chars_of, string_of};
use vstd::prelude::*;

verus! {

/// The STUN server used when none is given.
pub const DEFAULT_STUN_SERVER: &'static str = "stun.l.google.com:19302";

/// The discovery service of a device: which STUN server it asks.
#[derive(Clone, Debug)]
pub struct DiscoveryService {
    pub stun_server: String,
}

impl DiscoveryService {
    /// A discovery service asking `stun_server`, or Google's public STUN
    /// server where none is given.
    pub fn new(stun_server: Option<String>) -> (r: DiscoveryService)
        ensures
            r.stun_server@ == (match stun_server {
                Some(s) => s@,
                None => "stun.l.google.com:19302"@,
            }),
    {
        match stun_server {
            Some(s) => DiscoveryService { stun_server: s },
            None => DiscoveryService { stun_server: string_of(chars_of(DEFAULT_STUN_SERVER).as_slice()) },
        }
    }
}

} // verus!
