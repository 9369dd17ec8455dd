//! Connection bookkeeping of a device: the connection state and its numeric
//! encoding, the reconnection schedule, the messages a device sends, and
//! what to do when the server announces a file.
//!
//! The socket, the channels and the timers belong to the application, which
//! performs the actions decided here.

use crate::collaboration::crypto::auth::{
    expected_signature, lemma_issued_token_accepted, token_text, AuthToken, AuthTokenView,
    TOKEN_LIFETIME_SECS,
};
use crate::collaboration::server::ws::{auth_line_token, authenticate_spec, AuthRejection};
use crate::collaboration::ids::{uuid_text, uuid_to_chars};
use crate::collaboration::types::{ClientMessage, ServerMessage};
use crate::config::{join_path, path_joined};
use crate::text::{chars_of, has_char, lemma_split_once_of_join, string_of};
use vstd::arithmetic::power2::{lemma2_to64, pow2};
use vstd::prelude::*;

verus! {

/// State of the connection to the collaboration server.
#[derive(Clone, Copy, Debug, PartialEq, Eq, Structural)]
pub enum ConnectionState {
    Connected,
    Connecting,
    /// Disconnected, waiting to reconnect.
    Disconnected,
    /// Reconnecting; `attempt` counts from 1.
    Reconnecting { attempt: u64 },
    /// Given up after the last allowed attempt.
    Failed,
}

/// Attempts to reconnect before giving up.
pub const MAX_RECONNECT_ATTEMPTS: u64 = 10;

/// The first pause before reconnecting, in seconds.
pub const BACKOFF_BASE_SECS: u64 = 1;

/// The longest pause before reconnecting, in seconds.
pub const MAX_BACKOFF_SECS: u64 = 30;

/// The state a stored number stands for: 0 disconnected, 1 connecting,
/// 2 connected, 3 failed, and `4 + n` reconnecting at attempt `n`.
pub open spec fn state_of_code(val: u64) -> ConnectionState {
    if val == 0 {
        ConnectionState::Disconnected
    } else if val == 1 {
        ConnectionState::Connecting
    } else if val == 2 {
        ConnectionState::Connected
    } else if val == 3 {
        ConnectionState::Failed
    } else {
        ConnectionState::Reconnecting { attempt: (val - 4) as u64 }
    }
}

/// The number a state is stored as (the inverse of `state_of_code`).
pub open spec fn code_of_state(s: ConnectionState) -> int {
    match s {
        ConnectionState::Disconnected => 0,
        ConnectionState::Connecting => 1,
        ConnectionState::Connected => 2,
        ConnectionState::Failed => 3,
        ConnectionState::Reconnecting { attempt } => 4 + attempt,
    }
}

/// A state that has a stored number: the attempt of a reconnecting state
/// leaves room for the offset of 4.
pub open spec fn encodable(s: ConnectionState) -> bool {
    s matches ConnectionState::Reconnecting { attempt } ==> attempt <= u64::MAX - 4
}

impl ConnectionState {
    /// The state that the stored number `val` stands for.
    pub fn from_u64(val: u64) -> (r: ConnectionState)
        ensures
            r == state_of_code(val),
    {
        match val {
            0 => ConnectionState::Disconnected,
            1 => ConnectionState::Connecting,
            2 => ConnectionState::Connected,
            3 => ConnectionState::Failed,
            n => ConnectionState::Reconnecting { attempt: n - 4 },
        }
    }

    /// The number this state is stored as.
    pub fn to_u64(&self) -> (r: u64)
        requires
            encodable(*self),
        ensures
            r == code_of_state(*self),
    {
        match *self {
            ConnectionState::Disconnected => 0,
            ConnectionState::Connecting => 1,
            ConnectionState::Connected => 2,
            ConnectionState::Failed => 3,
            ConnectionState::Reconnecting { attempt } => 4 + attempt,
        }
    }
}

/// Storing a state and reading it back gives the same state.
pub proof fn lemma_state_code_round_trip(s: ConnectionState)
    requires
        encodable(s),
    ensures
        0 <= code_of_state(s) <= u64::MAX,
        state_of_code(code_of_state(s) as u64) == s,
{
}

/// Every stored number is the code of the state it is read as.
pub proof fn lemma_code_state_round_trip(val: u64)
    ensures
        encodable(state_of_code(val)),
        code_of_state(state_of_code(val)) == val,
{
}

/// What the reconnection loop does at attempt `attempt`.
#[derive(Clone, Copy, Debug, PartialEq, Eq, Structural)]
pub enum ReconnectStep {
    /// Too many attempts: record `Failed` and stop.
    GiveUp,
    /// Record `state`, wait `backoff_secs`, then try to connect.
    Retry { state: ConnectionState, backoff_secs: u64 },
}

/// The pause before attempt `attempt` (from 1): 1, 2, 4, ... seconds,
/// at most 30.
pub open spec fn backoff_spec(attempt: u64) -> nat {
    let b = (BACKOFF_BASE_SECS as nat) * pow2((attempt - 1) as nat);
    if b < MAX_BACKOFF_SECS {
        b
    } else {
        MAX_BACKOFF_SECS as nat
    }
}

/// The reconnection step for attempt `attempt` (counting from 1).
pub open spec fn reconnect_step_spec(attempt: u64) -> ReconnectStep {
    if attempt > MAX_RECONNECT_ATTEMPTS {
        ReconnectStep::GiveUp
    } else {
        ReconnectStep::Retry {
            state: ConnectionState::Reconnecting { attempt },
            backoff_secs: backoff_spec(attempt) as u64,
        }
    }
}

/// Decides attempt `attempt` of the reconnection loop: give up past the
/// tenth attempt, else announce the attempt and wait with exponential
/// back-off.
pub fn reconnect_step(attempt: u64) -> (r: ReconnectStep)
    requires
        attempt >= 1,
    ensures
        r == reconnect_step_spec(attempt),
{
    if attempt > MAX_RECONNECT_ATTEMPTS {
        return ReconnectStep::GiveUp;
    }
    let mut p: u64 = 1;
    let mut i: u64 = 1;
    proof {
        lemma2_to64();
    }
    while i < attempt
        invariant
            1 <= i <= attempt <= MAX_RECONNECT_ATTEMPTS,
            p == pow2((i - 1) as nat),
            pow2(0) == 1 && pow2(1) == 2 && pow2(2) == 4 && pow2(3) == 8 && pow2(4) == 16 && pow2(5)
                == 32 && pow2(6) == 64 && pow2(7) == 128 && pow2(8) == 256 && pow2(9) == 512,
        decreases attempt - i,
    {
        p = p * 2;
        i = i + 1;
    }
    let backoff = if BACKOFF_BASE_SECS * p < MAX_BACKOFF_SECS {
        BACKOFF_BASE_SECS * p
    } else {
        MAX_BACKOFF_SECS
    };
    ReconnectStep::Retry { state: ConnectionState::Reconnecting { attempt }, backoff_secs: backoff }
}

/// Every pause of the reconnection loop lasts between 1 and 30 seconds, and
/// the loop gives up exactly after the tenth attempt.
pub proof fn lemma_reconnect_bounded(attempt: u64)
    requires
        attempt >= 1,
    ensures
        (reconnect_step_spec(attempt) is GiveUp) == (attempt > MAX_RECONNECT_ATTEMPTS),
        reconnect_step_spec(attempt) matches ReconnectStep::Retry { backoff_secs, .. } ==> 1
            <= backoff_secs <= MAX_BACKOFF_SECS,
{
    if attempt <= MAX_RECONNECT_ATTEMPTS {
        lemma_pow2_at_least_one((attempt - 1) as nat);
    }
}

proof fn lemma_pow2_at_least_one(e: nat)
    ensures
        pow2(e) >= 1,
    decreases e,
{
    vstd::arithmetic::power2::lemma_pow2_pos(e);
}

/// What a device knows of its own connection: who it is, in which team, and
/// where the server is.
#[derive(Clone, Debug)]
pub struct ClientSession {
    pub device_id: u128,
    pub team_id: u128,
    pub device_name: String,
    pub server_url: String,
}

impl ClientSession {
    /// A session for `device_id` in `team_id` talking to `server_url`.
    pub fn new(server_url: &str, team_id: u128, device_id: u128, device_name: &str) -> (r:
        ClientSession)
        ensures
            r.device_id == device_id,
            r.team_id == team_id,
            r.device_name@ == device_name@,
            r.server_url@ == server_url@,
    {
        ClientSession {
            device_id,
            team_id,
            device_name: string_of(chars_of(device_name).as_slice()),
            server_url: string_of(chars_of(server_url).as_slice()),
        }
    }

    /// The first line sent on a new connection: `AUTH:` and a token issued
    /// now for this device and team, signed under `secret`.
    pub fn auth_message(&self, secret: &str) -> (r: String)
        ensures
            exists|t: AuthTokenView|
                {
                    &&& t.team_id == self.team_id
                    &&& t.device_id == self.device_id
                    &&& t.signature == expected_signature(secret@, t.team_id, t.device_id, t.timestamp)
                    &&& r@ == "AUTH:"@ + token_text(t)
                    &&& forall|now: u64|
                        t.timestamp <= now
                            <= t.timestamp + TOKEN_LIFETIME_SECS ==> #[trigger] authenticate_spec(
                            r@,
                            now,
                            secret@,
                        ) == Ok::<(u128, u128), AuthRejection>((self.team_id, self.device_id))
                },
    {
        let token = AuthToken::generate(self.team_id, self.device_id, secret);
        let text = token.to_token_string();
        let mut out = chars_of("AUTH:");
        let body = chars_of(text.as_str());
        crate::text::append(&mut out, body.as_slice());
        proof {
            reveal_strlit("AUTH:");
            reveal_strlit("AUTH");
            assert(out@ =~= "AUTH:"@ + token_text(token@));
            assert("AUTH:"@ =~= "AUTH"@ + seq![':']);
            assert(!has_char("AUTH"@, ':')) by {
                if has_char("AUTH"@, ':') {
                    let i = choose|i: int| 0 <= i < "AUTH"@.len() && "AUTH"@[i] == ':';
                }
            }
            assert(out@ =~= "AUTH"@ + seq![':'] + token_text(token@));
            lemma_split_once_of_join("AUTH"@, ':', token_text(token@));
            assert(auth_line_token(out@) == Some(token@));
            assert forall|now: u64|
                token.timestamp <= now
                    <= token.timestamp + TOKEN_LIFETIME_SECS implies #[trigger] authenticate_spec(
                out@,
                now,
                secret@,
            ) == Ok::<(u128, u128), AuthRejection>((self.team_id, self.device_id)) by {
                lemma_issued_token_accepted(secret@, token.team_id, token.device_id, token.timestamp, now);
            }
        }
        string_of(out.as_slice())
    }

    /// The registration sent after authenticating.
    pub fn register_message(&self) -> (r: ClientMessage)
        ensures
            r matches ClientMessage::Register { device_id, team_id, name } && device_id
                == self.device_id && team_id == self.team_id && name@ == self.device_name@,
    {
        ClientMessage::Register {
            device_id: self.device_id,
            team_id: self.team_id,
            name: string_of(chars_of(self.device_name.as_str()).as_slice()),
        }
    }

    /// The periodic heartbeat.
    pub fn heartbeat_message(&self) -> (r: ClientMessage)
        ensures
            r == (ClientMessage::Heartbeat { device_id: self.device_id }),
    {
        ClientMessage::Heartbeat { device_id: self.device_id }
    }

    /// Adds `url` to the team's queue.
    pub fn add_task(&self, url: &str) -> (r: ClientMessage)
        ensures
            r matches ClientMessage::AddTask { url: u } && u@ == url@,
    {
        ClientMessage::AddTask { url: string_of(chars_of(url).as_slice()) }
    }

    /// Claims task `task_id`.
    pub fn claim_task(&self, task_id: u128) -> (r: ClientMessage)
        ensures
            r == (ClientMessage::ClaimTask { task_id }),
    {
        ClientMessage::ClaimTask { task_id }
    }

    /// Reports the progress of task `task_id` (`progress` holds the bits of
    /// an `f64` fraction).
    pub fn update_progress(&self, task_id: u128, progress: u64) -> (r: ClientMessage)
        ensures
            r == (ClientMessage::UpdateProgress { task_id, progress }),
    {
        ClientMessage::UpdateProgress { task_id, progress }
    }

    /// Reports task `task_id` done, its file at `local_path`.
    pub fn task_complete(&self, task_id: u128, local_path: &str, file_size: u64) -> (r:
        ClientMessage)
        ensures
            r matches ClientMessage::TaskComplete { task_id: t, local_path: p, file_size: s } && t
                == task_id && p@ == local_path@ && s == file_size,
    {
        ClientMessage::TaskComplete {
            task_id,
            local_path: string_of(chars_of(local_path).as_slice()),
            file_size,
        }
    }

    /// Asks for the file of task `task_id`.
    pub fn request_file(&self, task_id: u128) -> (r: ClientMessage)
        ensures
            r == (ClientMessage::RequestFile { task_id }),
    {
        ClientMessage::RequestFile { task_id }
    }

    /// Leaves the team.
    pub fn leave_team(&self) -> (r: ClientMessage)
        ensures
            r == (ClientMessage::LeaveTeam { device_id: self.device_id }),
    {
        ClientMessage::LeaveTeam { device_id: self.device_id }
    }

    /// Creates a team called `name`.
    pub fn create_team(&self, name: &str) -> (r: ClientMessage)
        ensures
            r matches ClientMessage::CreateTeam { name: n } && n@ == name@,
    {
        ClientMessage::CreateTeam { name: string_of(chars_of(name).as_slice()) }
    }

    /// Joins the team with invitation code `invite_code`.
    pub fn join_team(&self, invite_code: &str) -> (r: ClientMessage)
        ensures
            r matches ClientMessage::JoinTeam { invite_code: c } && c@ == invite_code@,
    {
        ClientMessage::JoinTeam { invite_code: string_of(chars_of(invite_code).as_slice()) }
    }

    /// The device's identifier.
    pub fn device_id(&self) -> (r: u128)
        ensures
            r == self.device_id,
    {
        self.device_id
    }

    /// The team's identifier.
    pub fn team_id(&self) -> (r: u128)
        ensures
            r == self.team_id,
    {
        self.team_id
    }
}

/// A file to fetch from a peer.
#[derive(Clone, Debug)]
pub struct PeerDownload {
    pub ip: String,
    pub port: u16,
    /// The task's identifier as text, as the peer's URL carries it.
    pub task_id: String,
    /// Where the file is written: the download directory joined with the
    /// announced file name.
    pub output_path: String,
}

/// What the file handler does with a message from the server: a
/// `FileAvailable` announcement becomes a download into `download_dir`;
/// every other message is left to the other subscribers.
pub fn peer_download_for(msg: &ServerMessage, download_dir: &str) -> (r: Option<PeerDownload>)
    ensures
        match *msg {
            ServerMessage::FileAvailable { task_id, ip, port, filename, .. } => r matches Some(
                d,
            ) && d.ip@ == ip@ && d.port == port && d.task_id@ == uuid_text(task_id)
                && d.output_path@ == path_joined(download_dir@, filename@),
            _ => r is None,
        },
{
    match msg {
        ServerMessage::FileAvailable { task_id, from_device: _, ip, port, filename, size: _ } => {
            let id = uuid_to_chars(*task_id);
            Some(
                PeerDownload {
                    ip: string_of(chars_of(ip.as_str()).as_slice()),
                    port: *port,
                    task_id: string_of(id.as_slice()),
                    output_path: join_path(download_dir, filename.as_str()),
                },
            )
        },
        _ => None,
    }
}

} // verus!
