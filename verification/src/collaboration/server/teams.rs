//! New teams and their invitation codes.

use crate::collaboration::ids::{new_uuid, now};
use crate::collaboration::types::Team;
use crate::text::{chars_of, string_of};
use vstd::prelude::*;

verus! {

/// Length of an invitation code.
pub const INVITE_CODE_LEN: usize = 16;

/// The characters an invitation code is drawn from: digits, letters and
/// `!@#$%^&*`.
pub const INVITE_CHARSET: &'static str = "0123456789ABCDEFGHIJKLMNOPQRSTUVWXYZabcdefghijklmnopqrstuvwxyz!@#$%^&*";

/// Number of characters in `INVITE_CHARSET`.
pub const INVITE_CHARSET_LEN: usize = 70;

/// Whether `c` may appear in an invitation code.
pub open spec fn invite_char(c: char) -> bool {
    INVITE_CHARSET@.contains(c)
}

/// A uniformly random position below `n`, from the operating system's
/// random source (`rand::rngs::OsRng` and `Rng::gen_range(0..n)`).
///
/// Only the range is claimed; `gen_range` panics on an empty range, which
/// the `requires` rules out.
#[verifier::external_body]
fn random_below(n: usize) -> (r: usize)
    requires
        n > 0,
    ensures
        r < n,
{
    rand::Rng::gen_range(&mut rand::rngs::OsRng, 0..n)
}

/// A fresh invitation code: 16 characters drawn at random from
/// `INVITE_CHARSET`.
pub fn generate_invite_code() -> (r: String)
    ensures
        r@.len() == INVITE_CODE_LEN,
        forall|i: int| 0 <= i < r@.len() ==> invite_char(#[trigger] r@[i]),
{
    let charset = chars_of(INVITE_CHARSET);
    proof {
        reveal_strlit("0123456789ABCDEFGHIJKLMNOPQRSTUVWXYZabcdefghijklmnopqrstuvwxyz!@#$%^&*");
    }
    assert(charset.len() == INVITE_CHARSET_LEN);
    let mut code: Vec<char> = Vec::new();
    while code.len() < INVITE_CODE_LEN
        invariant
            code@.len() <= INVITE_CODE_LEN,
            charset@ == INVITE_CHARSET@,
            charset@.len() == INVITE_CHARSET_LEN,
            forall|i: int| 0 <= i < code@.len() ==> invite_char(#[trigger] code@[i]),
        decreases INVITE_CODE_LEN - code@.len(),
    {
        let k = random_below(charset.len());
        let c = charset[k];
        assert(INVITE_CHARSET@[k as int] == c);
        code.push(c);
    }
    string_of(code.as_slice())
}

/// A new team called `name`, with a fresh identifier, a fresh invitation
/// code and the current time.
pub fn new_team(name: &str) -> (r: Team)
    ensures
        r.name@ == name@,
        r.invite_code@.len() == INVITE_CODE_LEN,
        forall|i: int| 0 <= i < r.invite_code@.len() ==> invite_char(#[trigger] r.invite_code@[i]),
{
    Team {
        id: new_uuid(),
        name: string_of(chars_of(name).as_slice()),
        invite_code: generate_invite_code(),
        created_at: now(),
    }
}

} // verus!
