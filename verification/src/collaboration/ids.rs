//! Identifiers and instants as plain values.
//!
//! A UUID is held as its 128-bit value and an instant as whole seconds and
//! nanoseconds since the Unix epoch; the `uuid` and `chrono` crates do the
//! parsing, printing and clock reading behind the wrappers below.

use vstd::prelude::*;

verus! {

/// The nil UUID (all bits zero).
pub const NIL_ID: u128 = 0;

/// The hyphenated lowercase text that `uuid::Uuid`'s `Display` writes for the
/// UUID whose value is `id`.
pub uninterp spec fn uuid_text(id: u128) -> Seq<char>;

/// What `uuid::Uuid::parse_str` makes of `s`: the value of the parsed UUID,
/// or `None` where it reports an error.
pub uninterp spec fn uuid_parsed(s: Seq<char>) -> Option<u128>;

/// A character of the hyphenated UUID format.
pub open spec fn is_uuid_text_char(c: char) -> bool {
    ||| (48 <= (c as u32) && (c as u32) <= 57)
    ||| (97 <= (c as u32) && (c as u32) <= 102)
    ||| c == '-'
}

/// Formats a UUID with `uuid::Uuid::from_u128(id).to_string()`.
///
/// The contract claims what the `uuid` crate documents for its `Display`:
/// the 36-character hyphenated form in lowercase hex digits, which
/// `Uuid::parse_str` accepts and reads back as the same UUID.
#[verifier::external_body]
pub(crate) fn uuid_to_chars(id: u128) -> (r: Vec<char>)
    ensures
        r@ == uuid_text(id),
        r@.len() == 36,
        forall|i: int| 0 <= i < r@.len() ==> is_uuid_text_char(#[trigger] r@[i]),
        uuid_parsed(r@) == Some(id),
{
    uuid::Uuid::from_u128(id).to_string().chars().collect()
}

/// Parses a UUID with `uuid::Uuid::parse_str`, giving its 128-bit value.
///
/// The contract names the result `uuid_parsed(s)`; which texts the crate
/// accepts is left to that name.
#[verifier::external_body]
pub(crate) fn parse_uuid(s: &[char]) -> (r: Option<u128>)
    ensures
        r == uuid_parsed(s@),
{
    let text: String = s.iter().collect();
    uuid::Uuid::parse_str(&text).ok().map(|u| u.as_u128())
}

/// A fresh random (version 4) UUID from `uuid::Uuid::new_v4`.
///
/// Nothing is claimed of the value: it comes from the operating system's
/// random source.
#[verifier::external_body]
pub(crate) fn new_uuid() -> (r: u128) {
    uuid::Uuid::new_v4().as_u128()
}

/// An instant as seconds and nanoseconds since the Unix epoch (UTC).
#[derive(Clone, Copy, Debug, PartialEq, Eq, Structural)]
pub struct Timestamp {
    pub secs: i64,
    pub nanos: u32,
}

impl Timestamp {
    /// Nanoseconds since the epoch, as a mathematical integer.
    pub open spec fn total_nanos(self) -> int {
        self.secs * 1_000_000_000 + self.nanos
    }
}

/// The current time from `chrono::Utc::now()`.
///
/// Nothing is claimed of the value: it is read from the system clock.
#[verifier::external_body]
pub(crate) fn now() -> (r: Timestamp) {
    let t = chrono::Utc::now();
    Timestamp { secs: t.timestamp(), nanos: t.timestamp_subsec_nanos() }
}

} // verus!
