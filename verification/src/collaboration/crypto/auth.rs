//! WebSocket authentication tokens.
//!
//! A token binds a team and a device to the second at which it was issued:
//! `team_id:device_id:timestamp:signature`, where the signature is the
//! lowercase hex HMAC-SHA256 of `team_id:device_id:timestamp` under a shared
//! secret. A token is accepted for 300 seconds after it was issued.

use crate::collaboration::ids::{is_uuid_text_char, parse_uuid, uuid_parsed, uuid_text, uuid_to_chars};
use crate::text::{
    append, chars_equal, chars_of, decimal, has_char, is_digit, lemma_decimal_digits,
    lemma_parse_decimal, lemma_rsplit_once_of_join, parse_u64, parse_u64_spec, rsplit_once,
    rsplit_once_spec, string_of, u64_to_chars,
};
use hmac::Mac;
use vstd::prelude::*;

verus! {

/// Seconds for which a token stays valid after it was issued.
pub const TOKEN_LIFETIME_SECS: u64 = 300;

/// The secret used when none is configured (development only).
pub const DEFAULT_SHARED_SECRET: &'static str = "ws-auth-dev-secret-key-do-not-use-in-production";

/// An authentication token.
#[derive(Clone, Debug)]
pub struct AuthToken {
    pub team_id: u128,
    pub device_id: u128,
    pub timestamp: u64,
    pub signature: String,
}

/// Why a token was refused.
#[derive(Clone, Copy, Debug, PartialEq, Eq, Structural)]
pub enum AuthError {
    /// More than 300 seconds have passed since the token was issued.
    TokenExpired,
    /// The signature does not match the token's contents.
    InvalidSignature,
    /// The text is not of the form `team_id:device_id:timestamp:signature`.
    InvalidFormat,
}

/// The mathematical content of a token.
pub struct AuthTokenView {
    pub team_id: u128,
    pub device_id: u128,
    pub timestamp: u64,
    pub signature: Seq<char>,
}

impl View for AuthToken {
    type V = AuthTokenView;

    open spec fn view(&self) -> AuthTokenView {
        AuthTokenView {
            team_id: self.team_id,
            device_id: self.device_id,
            timestamp: self.timestamp,
            signature: self.signature@,
        }
    }
}

/// What `hmac::Hmac<sha2::Sha256>` keyed with the UTF-8 bytes of `key`
/// produces over the UTF-8 bytes of `message`, written by `hex::encode`.
pub uninterp spec fn hmac_sha256_hex(key: Seq<char>, message: Seq<char>) -> Seq<char>;

/// A lowercase hexadecimal digit.
pub open spec fn is_lower_hex(c: char) -> bool {
    (48 <= (c as u32) && (c as u32) <= 57) || (97 <= (c as u32) && (c as u32) <= 102)
}

/// Signs `message` under `key` with HMAC-SHA256 and hex-encodes the tag.
///
/// The contract names the tag `hmac_sha256_hex(key, message)` and claims
/// what the crates document of its form: `hex::encode` writes each of the
/// 32 bytes of a SHA-256 tag as two lowercase hex digits.
#[verifier::external_body]
fn hmac_sign(key: &[char], message: &[char]) -> (r: Vec<char>)
    ensures
        r@ == hmac_sha256_hex(key@, message@),
        r@.len() == 64,
        forall|i: int| 0 <= i < r@.len() ==> is_lower_hex(#[trigger] r@[i]),
{
    let key: String = key.iter().collect();
    let message: String = message.iter().collect();
    let mut mac = <hmac::Hmac<sha2::Sha256> as Mac>::new_from_slice(key.as_bytes()).unwrap();
    mac.update(message.as_bytes());
    hex::encode(mac.finalize().into_bytes()).chars().collect()
}

/// Seconds since the Unix epoch from `std::time::SystemTime::now()`.
///
/// Nothing is claimed of the value: it is read from the system clock. A clock
/// set before 1970 reads as 0.
#[verifier::external_body]
fn unix_now_secs() -> (r: u64) {
    std::time::SystemTime::now()
        .duration_since(std::time::UNIX_EPOCH)
        .map(|d| d.as_secs())
        .unwrap_or(0)
}

/// The text that is signed: `team_id:device_id:timestamp`.
pub open spec fn signed_message(team_id: u128, device_id: u128, timestamp: u64) -> Seq<char> {
    uuid_text(team_id) + seq![':'] + uuid_text(device_id) + seq![':'] + decimal(timestamp as nat)
}

/// The signature a token with these fields carries when issued under `secret`.
pub open spec fn expected_signature(
    secret: Seq<char>,
    team_id: u128,
    device_id: u128,
    timestamp: u64,
) -> Seq<char> {
    hmac_sha256_hex(secret, signed_message(team_id, device_id, timestamp))
}

/// The text form of a token: `team_id:device_id:timestamp:signature`.
pub open spec fn token_text(t: AuthTokenView) -> Seq<char> {
    signed_message(t.team_id, t.device_id, t.timestamp) + seq![':'] + t.signature
}

/// How a token is read back from its text: the text is split at its last
/// three `:`, then both ids are read as UUIDs and the timestamp as a `u64`.
pub open spec fn parse_token_spec(s: Seq<char>) -> Result<AuthTokenView, AuthError> {
    match rsplit_once_spec(s, ':') {
        None => Err(AuthError::InvalidFormat),
        Some((prefix, signature)) => match rsplit_once_spec(prefix, ':') {
            None => Err(AuthError::InvalidFormat),
            Some((mid, ts)) => match rsplit_once_spec(mid, ':') {
                None => Err(AuthError::InvalidFormat),
                Some((team, device)) => match (
                    uuid_parsed(team),
                    uuid_parsed(device),
                    parse_u64_spec(ts),
                ) {
                    (Some(team_id), Some(device_id), Some(timestamp)) => Ok(
                        AuthTokenView { team_id, device_id, timestamp, signature },
                    ),
                    _ => Err(AuthError::InvalidFormat),
                },
            },
        },
    }
}

/// Whether a token is accepted at second `now` under `secret`: it must not
/// be more than 300 seconds old, and its signature must match its contents.
pub open spec fn verify_spec(t: AuthTokenView, now: u64, secret: Seq<char>) -> Result<
    (),
    AuthError,
> {
    if now > t.timestamp + TOKEN_LIFETIME_SECS {
        Err(AuthError::TokenExpired)
    } else if t.signature != expected_signature(secret, t.team_id, t.device_id, t.timestamp) {
        Err(AuthError::InvalidSignature)
    } else {
        Ok(())
    }
}

/// The characters of `team_id:device_id:timestamp`.
fn message_chars(team_id: u128, device_id: u128, timestamp: u64) -> (r: Vec<char>)
    ensures
        r@ == signed_message(team_id, device_id, timestamp),
        uuid_parsed(uuid_text(team_id)) == Some(team_id),
        uuid_parsed(uuid_text(device_id)) == Some(device_id),
        !has_char(uuid_text(device_id), ':'),
        !has_char(decimal(timestamp as nat), ':'),
{
    let team = uuid_to_chars(team_id);
    let device = uuid_to_chars(device_id);
    let ts = u64_to_chars(timestamp);
    let mut r = team;
    r.push(':');
    append(&mut r, device.as_slice());
    r.push(':');
    append(&mut r, ts.as_slice());
    proof {
        assert(r@ =~= signed_message(team_id, device_id, timestamp));
        if has_char(device@, ':') {
            let i = choose|i: int| 0 <= i < device@.len() && device@[i] == ':';
            assert(is_uuid_text_char(device@[i]));
        }
        lemma_decimal_digits(timestamp as nat);
        if has_char(ts@, ':') {
            let i = choose|i: int| 0 <= i < ts@.len() && ts@[i] == ':';
            assert(is_digit(ts@[i]));
        }
    }
    r
}

impl AuthToken {
    /// Issues a token for `team_id` and `device_id` at second `timestamp`,
    /// signed under `secret`.
    pub fn generate_at(team_id: u128, device_id: u128, timestamp: u64, secret: &str) -> (r:
        AuthToken)
        ensures
            r.team_id == team_id,
            r.device_id == device_id,
            r.timestamp == timestamp,
            r.signature@ == expected_signature(secret@, team_id, device_id, timestamp),
            !has_char(r.signature@, ':'),
    {
        let message = message_chars(team_id, device_id, timestamp);
        let key = chars_of(secret);
        let sig = hmac_sign(key.as_slice(), message.as_slice());
        proof {
            if has_char(sig@, ':') {
                let i = choose|i: int| 0 <= i < sig@.len() && sig@[i] == ':';
                assert(is_lower_hex(sig@[i]));
            }
        }
        AuthToken { team_id, device_id, timestamp, signature: string_of(sig.as_slice()) }
    }

    /// Issues a token for `team_id` and `device_id` at the current second,
    /// signed under `secret`.
    pub fn generate(team_id: u128, device_id: u128, secret: &str) -> (r: AuthToken)
        ensures
            r.team_id == team_id,
            r.device_id == device_id,
            r.signature@ == expected_signature(secret@, team_id, device_id, r.timestamp),
            !has_char(r.signature@, ':'),
    {
        let now = unix_now_secs();
        Self::generate_at(team_id, device_id, now, secret)
    }

    /// The text form `team_id:device_id:timestamp:signature`.
    ///
    /// Reading the text back with `parse` gives the same token whenever the
    /// signature holds no `:` (every issued signature is hex).
    pub fn to_token_string(&self) -> (s: String)
        ensures
            s@ == token_text(self@),
            !has_char(self.signature@, ':') ==> parse_token_spec(s@) == Ok::<
                AuthTokenView,
                AuthError,
            >(self@),
    {
        let mut r = message_chars(self.team_id, self.device_id, self.timestamp);
        r.push(':');
        let sig = chars_of(self.signature.as_str());
        append(&mut r, sig.as_slice());
        proof {
            assert(r@ =~= token_text(self@));
            if !has_char(self.signature@, ':') {
                let team = uuid_text(self.team_id);
                let device = uuid_text(self.device_id);
                let ts = decimal(self.timestamp as nat);
                let mid = team + seq![':'] + device;
                let prefix = mid + seq![':'] + ts;
                assert(r@ =~= prefix + seq![':'] + self.signature@);
                lemma_rsplit_once_of_join(prefix, ':', self.signature@);
                lemma_rsplit_once_of_join(mid, ':', ts);
                lemma_rsplit_once_of_join(team, ':', device);
                lemma_parse_decimal(self.timestamp);
            }
        }
        string_of(r.as_slice())
    }

    /// Reads a token from `team_id:device_id:timestamp:signature`.
    pub fn parse(token_str: &str) -> (r: Result<AuthToken, AuthError>)
        ensures
            match r {
                Ok(t) => parse_token_spec(token_str@) == Ok::<AuthTokenView, AuthError>(t@),
                Err(e) => parse_token_spec(token_str@) == Err::<AuthTokenView, AuthError>(e),
            },
    {
        let s = chars_of(token_str);
        let (prefix, signature) = match rsplit_once(s.as_slice(), ':') {
            None => return Err(AuthError::InvalidFormat),
            Some(p) => p,
        };
        let (mid, timestamp_str) = match rsplit_once(prefix.as_slice(), ':') {
            None => return Err(AuthError::InvalidFormat),
            Some(p) => p,
        };
        let (team_id_str, device_id_str) = match rsplit_once(mid.as_slice(), ':') {
            None => return Err(AuthError::InvalidFormat),
            Some(p) => p,
        };
        let team_id = match parse_uuid(team_id_str.as_slice()) {
            None => return Err(AuthError::InvalidFormat),
            Some(v) => v,
        };
        let device_id = match parse_uuid(device_id_str.as_slice()) {
            None => return Err(AuthError::InvalidFormat),
            Some(v) => v,
        };
        let timestamp = match parse_u64(timestamp_str.as_slice()) {
            None => return Err(AuthError::InvalidFormat),
            Some(v) => v,
        };
        let r = AuthToken { team_id, device_id, timestamp, signature: string_of(signature.as_slice()) };
        assert(r@ == AuthTokenView { team_id, device_id, timestamp, signature: signature@ });
        Ok(r)
    }

    /// Checks the token at second `now` under `secret`: first that it has not
    /// expired, then that its signature matches its contents.
    pub fn verify_at(&self, now: u64, secret: &str) -> (r: Result<(), AuthError>)
        ensures
            r == verify_spec(self@, now, secret@),
    {
        if self.timestamp <= u64::MAX - TOKEN_LIFETIME_SECS && now > self.timestamp + TOKEN_LIFETIME_SECS {
            return Err(AuthError::TokenExpired);
        }
        let message = message_chars(self.team_id, self.device_id, self.timestamp);
        let key = chars_of(secret);
        let expected = hmac_sign(key.as_slice(), message.as_slice());
        let actual = chars_of(self.signature.as_str());
        if !chars_equal(actual.as_slice(), expected.as_slice()) {
            return Err(AuthError::InvalidSignature);
        }
        Ok(())
    }

    /// Checks the token at the current second under `secret`.
    pub fn verify(&self, secret: &str) -> (r: Result<(), AuthError>)
        ensures
            exists|now: u64| r == verify_spec(self@, now, secret@),
    {
        let now = unix_now_secs();
        self.verify_at(now, secret)
    }
}

/// A token issued under a secret is accepted under that secret by any check
/// made within 300 seconds of issue.
pub proof fn lemma_issued_token_accepted(
    secret: Seq<char>,
    team_id: u128,
    device_id: u128,
    timestamp: u64,
    now: u64,
)
    requires
        timestamp <= now <= timestamp + TOKEN_LIFETIME_SECS,
    ensures
        verify_spec(
            AuthTokenView {
                team_id,
                device_id,
                timestamp,
                signature: expected_signature(secret, team_id, device_id, timestamp),
            },
            now,
            secret,
        ) == Ok::<(), AuthError>(()),
{
}

} // verus!
