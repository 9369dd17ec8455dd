//! The server's side of a connection: reading the first frame, checking the
//! `AUTH:` line, naming the session, and noticing registrations.
//!
//! The application owns the socket; it performs the actions decided here
//! and hands each incoming frame to these functions.

use crate::collaboration::crypto::auth::{parse_token_spec, verify_spec, AuthError, AuthToken, AuthTokenView};
use crate::collaboration::ids::{new_uuid, uuid_text, uuid_to_chars};
use crate::collaboration::types::{ClientMessage, ServerMessage};
use crate::text::{append, chars_equal, chars_of, split_once, split_once_spec, string_of};
use vstd::prelude::*;

verus! {

/// A frame read from the socket, as far as the authentication phase tells
/// frames apart.
#[derive(Clone, Debug)]
pub enum IncomingFrame {
    Text(String),
    Binary,
    Ping(Vec<u8>),
    Pong,
    Close,
    /// Reading failed.
    Failed,
    /// The stream ended.
    Ended,
}

/// What the server does with a frame while it waits for the `AUTH:` line.
#[derive(Clone, Debug)]
pub enum FirstFrameAction {
    /// Check this text as the `AUTH:` line.
    Authenticate(String),
    /// Answer with a pong carrying these bytes, then read one more frame.
    ReplyPong(Vec<u8>),
    /// The client closed the connection: stop quietly.
    Closed,
    /// Not a text frame: stop.
    Invalid,
    /// Reading failed: stop with the error.
    Fail,
}

/// The action for a frame of the authentication phase; `after_ping` tells
/// whether a ping was already answered (then only a text frame is
/// accepted).
pub fn first_frame_action(frame: IncomingFrame, after_ping: bool) -> (r: FirstFrameAction)
    ensures
        frame matches IncomingFrame::Text(t) ==> (r matches FirstFrameAction::Authenticate(a)
            && a@ == t@),
        !(frame is Text) && after_ping ==> r is Invalid,
        !after_ping ==> match frame {
            IncomingFrame::Text(_) => r is Authenticate,
            IncomingFrame::Close => r is Closed,
            IncomingFrame::Ping(d) => r matches FirstFrameAction::ReplyPong(p) && p@ == d@,
            IncomingFrame::Failed => r is Fail,
            _ => r is Invalid,
        },
{
    match frame {
        IncomingFrame::Text(t) => FirstFrameAction::Authenticate(t),
        IncomingFrame::Close => if after_ping {
            FirstFrameAction::Invalid
        } else {
            FirstFrameAction::Closed
        },
        IncomingFrame::Ping(d) => if after_ping {
            FirstFrameAction::Invalid
        } else {
            FirstFrameAction::ReplyPong(d)
        },
        IncomingFrame::Failed => if after_ping {
            FirstFrameAction::Invalid
        } else {
            FirstFrameAction::Fail
        },
        _ => FirstFrameAction::Invalid,
    }
}

/// Why a connection was refused at authentication.
#[derive(Clone, Copy, Debug, PartialEq, Eq, Structural)]
pub enum AuthRejection {
    /// The first line is not `AUTH:` followed by a readable token.
    BadFormat,
    /// The token was read but not accepted.
    Refused { error: AuthError },
}

/// The token an `AUTH:` line carries: the text before the first `:` must be
/// `AUTH` and the rest a readable token.
pub open spec fn auth_line_token(text: Seq<char>) -> Option<AuthTokenView> {
    match split_once_spec(text, ':') {
        None => None,
        Some((prefix, rest)) => if prefix == "AUTH"@ {
            match parse_token_spec(rest) {
                Ok(t) => Some(t),
                Err(_) => None,
            }
        } else {
            None
        },
    }
}

/// The outcome of authenticating the line `text` at second `now` under
/// `secret`: the team and device of an accepted token.
pub open spec fn authenticate_spec(text: Seq<char>, now: u64, secret: Seq<char>) -> Result<
    (u128, u128),
    AuthRejection,
> {
    match auth_line_token(text) {
        None => Err(AuthRejection::BadFormat),
        Some(t) => match verify_spec(t, now, secret) {
            Ok(()) => Ok((t.team_id, t.device_id)),
            Err(e) => Err(AuthRejection::Refused { error: e }),
        },
    }
}

/// Reads the token of an `AUTH:` line.
fn read_auth_line(text: &str) -> (r: Option<AuthToken>)
    ensures
        match r {
            Some(t) => auth_line_token(text@) == Some(t@),
            None => auth_line_token(text@) is None,
        },
{
    let chars = chars_of(text);
    match split_once(chars.as_slice(), ':') {
        None => None,
        Some((prefix, rest)) => {
            let auth = chars_of("AUTH");
            if !chars_equal(prefix.as_slice(), auth.as_slice()) {
                return None;
            }
            let rest_text = string_of(rest.as_slice());
            match AuthToken::parse(rest_text.as_str()) {
                Ok(t) => Some(t),
                Err(_) => None,
            }
        },
    }
}

/// Authenticates the first line of a connection at second `now` under
/// `secret`.
pub fn authenticate_at(text: &str, now: u64, secret: &str) -> (r: Result<(u128, u128), AuthRejection>)
    ensures
        r == authenticate_spec(text@, now, secret@),
{
    match read_auth_line(text) {
        None => Err(AuthRejection::BadFormat),
        Some(t) => match t.verify_at(now, secret) {
            Ok(()) => Ok((t.team_id, t.device_id)),
            Err(e) => Err(AuthRejection::Refused { error: e }),
        },
    }
}

/// Authenticates the first line of a connection at the current second under
/// `secret`.
pub fn authenticate(text: &str, secret: &str) -> (r: Result<(u128, u128), AuthRejection>)
    ensures
        exists|now: u64| r == authenticate_spec(text@, now, secret@),
{
    match read_auth_line(text) {
        None => {
            assert(authenticate_spec(text@, 0, secret@) == Err::<(u128, u128), AuthRejection>(AuthRejection::BadFormat));
            Err(AuthRejection::BadFormat)
        },
        Some(t) => {
            let checked = t.verify(secret);
            let ghost now = choose|now: u64| checked == verify_spec(t@, now, secret@);
            match checked {
                Ok(()) => {
                    assert(authenticate_spec(text@, now, secret@) == Ok::<(u128, u128), AuthRejection>((t.team_id, t.device_id)));
                    Ok((t.team_id, t.device_id))
                },
                Err(e) => {
                    assert(authenticate_spec(text@, now, secret@) == Err::<(u128, u128), AuthRejection>(AuthRejection::Refused { error: e }));
                    Err(AuthRejection::Refused { error: e })
                },
            }
        },
    }
}

/// The name `{:?}` prints for an authentication error.
pub open spec fn auth_error_name(e: AuthError) -> Seq<char> {
    match e {
        AuthError::TokenExpired => "TokenExpired"@,
        AuthError::InvalidSignature => "InvalidSignature"@,
        AuthError::InvalidFormat => "InvalidFormat"@,
    }
}

/// The error text sent before closing a refused connection.
pub open spec fn rejection_text(r: AuthRejection) -> Seq<char> {
    match r {
        AuthRejection::BadFormat => "无效的认证格式"@,
        AuthRejection::Refused { error } => "认证失败: "@ + auth_error_name(error),
    }
}

/// The `Error` message sent before closing a refused connection.
pub fn rejection_reply(r: AuthRejection) -> (m: ServerMessage)
    ensures
        m matches ServerMessage::Error { message } && message@ == rejection_text(r),
{
    let text = match r {
        AuthRejection::BadFormat => chars_of("无效的认证格式"),
        AuthRejection::Refused { error } => {
            let mut out = chars_of("认证失败: ");
            let name = match error {
                AuthError::TokenExpired => chars_of("TokenExpired"),
                AuthError::InvalidSignature => chars_of("InvalidSignature"),
                AuthError::InvalidFormat => chars_of("InvalidFormat"),
            };
            append(&mut out, name.as_slice());
            out
        },
    };
    ServerMessage::Error { message: string_of(text.as_slice()) }
}

/// A fresh session key: a random UUID and its text.
pub fn new_session_key() -> (r: (u128, String))
    ensures
        r.1@ == uuid_text(r.0),
{
    let id = new_uuid();
    let text = uuid_to_chars(id);
    (id, string_of(text.as_slice()))
}

/// The device and team a message registers, for updating the session
/// before the message is handled.
pub fn session_update_for(msg: &ClientMessage) -> (r: Option<(u128, u128)>)
    ensures
        match *msg {
            ClientMessage::Register { device_id, team_id, .. } => r == Some((device_id, team_id)),
            _ => r is None,
        },
{
    match msg {
        ClientMessage::Register { device_id, team_id, name: _ } => Some((*device_id, *team_id)),
        _ => None,
    }
}

} // verus!
