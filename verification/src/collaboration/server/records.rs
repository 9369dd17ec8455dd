//! How the server's records are checked and written: device addresses are
//! validated before a device is stored, and task states are stored by name.
//!
//! The SQLite database itself belongs to the application.

use crate::collaboration::types::{Device, TaskStatus};
use crate::text::{append, chars_equal, chars_of, string_of};
use vstd::prelude::*;

verus! {

/// Checks a device's public port: it must be between 1 and 65535.
pub fn validate_port(port: u16) -> (r: Result<(), String>)
    ensures
        port != 0 ==> r is Ok,
        port == 0 ==> (r matches Err(e) && e@ == "Port must be between 1 and 65535"@),
{
    if port == 0 {
        return Err(string_of(chars_of("Port must be between 1 and 65535").as_slice()));
    }
    Ok(())
}

/// Checks a device record before it is stored: its public address, where
/// given, must be an IP address (`ip_is_valid` tells whether
/// `std::net::IpAddr` parses it, which the caller finds out), then its port,
/// where given, must not be 0.
pub fn check_device_address(device: &Device, ip_is_valid: bool) -> (r: Result<(), String>)
    ensures
        device.public_ip matches Some(ip) ==> (!ip_is_valid ==> (r matches Err(e) && e@
            == "Invalid IP address: "@ + ip@)),
        !(device.public_ip is Some && !ip_is_valid) ==> match device.public_port {
            Some(p) => if p == 0 {
                r matches Err(e) && e@ == "Port must be between 1 and 65535"@
            } else {
                r is Ok
            },
            None => r is Ok,
        },
{
    match &device.public_ip {
        Some(ip) => {
            if !ip_is_valid {
                let mut m = chars_of("Invalid IP address: ");
                append(&mut m, chars_of(ip.as_str()).as_slice());
                return Err(string_of(m.as_slice()));
            }
        },
        None => {},
    }
    match device.public_port {
        Some(p) => validate_port(p),
        None => Ok(()),
    }
}

/// The name a task state is stored under (its variant name).
pub open spec fn status_name_spec(s: TaskStatus) -> Seq<char> {
    match s {
        TaskStatus::New => "New"@,
        TaskStatus::Queued => "Queued"@,
        TaskStatus::Claimed => "Claimed"@,
        TaskStatus::Complete => "Complete"@,
        TaskStatus::Failed => "Failed"@,
    }
}

/// The state a stored name stands for; an unknown name reads as `New`.
pub open spec fn status_from_name_spec(name: Seq<char>) -> TaskStatus {
    if name == "Queued"@ {
        TaskStatus::Queued
    } else if name == "Claimed"@ {
        TaskStatus::Claimed
    } else if name == "Complete"@ {
        TaskStatus::Complete
    } else if name == "Failed"@ {
        TaskStatus::Failed
    } else {
        TaskStatus::New
    }
}

/// The name a task state is stored under.
pub fn status_name(s: TaskStatus) -> (r: String)
    ensures
        r@ == status_name_spec(s),
{
    let t = match s {
        TaskStatus::New => chars_of("New"),
        TaskStatus::Queued => chars_of("Queued"),
        TaskStatus::Claimed => chars_of("Claimed"),
        TaskStatus::Complete => chars_of("Complete"),
        TaskStatus::Failed => chars_of("Failed"),
    };
    string_of(t.as_slice())
}

/// The state a stored name stands for.
pub fn status_from_name(name: &str) -> (r: TaskStatus)
    ensures
        r == status_from_name_spec(name@),
{
    let n = chars_of(name);
    if chars_equal(n.as_slice(), chars_of("Queued").as_slice()) {
        TaskStatus::Queued
    } else if chars_equal(n.as_slice(), chars_of("Claimed").as_slice()) {
        TaskStatus::Claimed
    } else if chars_equal(n.as_slice(), chars_of("Complete").as_slice()) {
        TaskStatus::Complete
    } else if chars_equal(n.as_slice(), chars_of("Failed").as_slice()) {
        TaskStatus::Failed
    } else {
        TaskStatus::New
    }
}

/// A stored state reads back as itself.
pub proof fn lemma_status_name_round_trip(s: TaskStatus)
    ensures
        status_from_name_spec(status_name_spec(s)) == s,
{
    reveal_strlit("New");
    reveal_strlit("Queued");
    reveal_strlit("Claimed");
    reveal_strlit("Complete");
    reveal_strlit("Failed");
    assert("New"@.len() != "Queued"@.len() && "New"@.len() != "Claimed"@.len() && "New"@.len()
        != "Complete"@.len() && "New"@.len() != "Failed"@.len());
    assert("Queued"@.len() != "Claimed"@.len() && "Queued"@.len() != "Complete"@.len());
    assert("Claimed"@.len() != "Complete"@.len() && "Claimed"@.len() != "Failed"@.len());
    assert("Complete"@.len() != "Failed"@.len());
    assert("Failed"@[0] != "Queued"@[0]);
}

} // verus!
