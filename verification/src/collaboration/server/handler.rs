//! The server's decisions: who is connected, what each client message leads
//! to, and which tasks have timed out.
//!
//! Each `plan_*` function takes what the database returned and says what to
//! write back and which messages to send; the application performs the
//! database calls and the sends in the order given.

use crate::collaboration::client::queue::{is_first_with_id, lemma_first_with_id_unique};
use crate::collaboration::crypto::hashring::{owner_spec, url_hash, HashRing};
use crate::collaboration::ids::{Timestamp, NIL_ID};
use crate::collaboration::types::{
    copy_opt_string, progress_below_one, Device, ServerMessage, Task, TaskStatus, Team,
    is_progress_below_one, PROGRESS_ONE,
};
use crate::text::{append, chars_of, contains, contains_spec, string_of};
use std::collections::BTreeMap;
use vstd::prelude::*;

verus! {

broadcast use vstd::std_specs::btree::group_btree_axioms;

/// A claimed task is released when its claim is this old (five minutes) and
/// it is not finished.
pub const CLAIM_TIMEOUT_NANOS: i128 = 300_000_000_000;

/// The device and team a connection speaks for.
#[derive(Clone, Copy, Debug, PartialEq, Eq, Structural)]
pub struct Session {
    pub device_id: u128,
    pub team_id: u128,
}

/// Where a server message goes.
#[derive(Clone, Copy, Debug, PartialEq, Eq, Structural)]
pub enum Recipient {
    /// Every connection of this device.
    Device(u128),
    /// Every connection of this team.
    Team(u128),
    /// This connection only.
    Connection(u128),
}

/// A message to send.
#[derive(Clone, Debug)]
pub struct Outgoing {
    pub to: Recipient,
    pub message: ServerMessage,
}

/// What to do after reading a team's tasks for a task message.
#[derive(Debug)]
pub enum TaskPlan {
    /// Change nothing and send nothing.
    Nothing,
    /// Send these messages and change nothing.
    Reply(Vec<Outgoing>),
    /// Persist `task`; when that succeeds, send `on_success`.
    Store { task: Task, on_success: Vec<Outgoing> },
}

/// What to do with a task just stored by `AddTask`.
#[derive(Debug)]
pub struct AddTaskPlan {
    /// The claimed form of the task to store, when the ring assigned an owner
    /// (whether storing it succeeds does not change what is sent).
    pub claim_update: Option<Task>,
    /// Messages to send, in order.
    pub messages: Vec<Outgoing>,
}

/// How a device entered a team.
#[derive(Clone, Copy, Debug, PartialEq, Eq, Structural)]
pub enum TeamEntry {
    Created,
    Joined,
}

/// The entries of `m` in increasing key order (`BTreeMap::iter`, collected),
/// as the standard library documents the iteration order of a `BTreeMap`.
#[verifier::external_body]
fn session_entries(m: &BTreeMap<u128, Session>) -> (r: Vec<(u128, Session)>)
    ensures
        forall|i: int| 0 <= i < r@.len() ==> m@.contains_key(#[trigger] r@[i].0) && m@[r@[i].0]
            == r@[i].1,
        forall|k: u128| m@.contains_key(k) ==> exists|i: int| 0 <= i < r@.len() && #[trigger] r@[i].0 == k,
        forall|i: int, j: int| 0 <= i < j < r@.len() ==> (#[trigger] r@[i]).0 < (#[trigger] r@[j]).0,
{
    m.iter().map(|(k, v)| (*k, *v)).collect()
}

/// The sessions left after dropping every session of `device_id`.
pub open spec fn without_device(m: Map<u128, Session>, device_id: u128) -> Map<u128, Session> {
    Map::new(|k: u128| m.contains_key(k) && m[k].device_id != device_id, |k: u128| m[k])
}

/// The connections whose session matches `pred`.
pub open spec fn keys_where(m: Map<u128, Session>, pred: spec_fn(Session) -> bool) -> Set<u128> {
    Set::new(|k: u128| m.contains_key(k) && pred(m[k]))
}

/// The connection table: one session per connection key.
pub struct SessionTable {
    sessions: BTreeMap<u128, Session>,
}

impl SessionTable {
    pub closed spec fn view_map(&self) -> Map<u128, Session> {
        self.sessions@
    }

    /// No connections.
    pub fn new() -> (r: SessionTable)
        ensures
            r.view_map() == Map::<u128, Session>::empty(),
    {
        SessionTable { sessions: BTreeMap::new() }
    }

    /// The keys of the sessions matching `pred`, in increasing order.
    fn keys_matching(&self, device: Option<u128>, team: Option<u128>) -> (r: Vec<u128>)
        requires
            device is Some || team is Some,
        ensures
            forall|k: u128|
                #[trigger] r@.contains(k) <==> (self.view_map().contains_key(k) && match device {
                    Some(d) => self.view_map()[k].device_id == d,
                    None => self.view_map()[k].team_id == team->0,
                }),
            forall|i: int, j: int| 0 <= i < j < r@.len() ==> r@[i] < r@[j],
    {
        let entries = session_entries(&self.sessions);
        let mut r: Vec<u128> = Vec::new();
        let mut i: usize = 0;
        while i < entries.len()
            invariant
                i <= entries.len(),
                device is Some || team is Some,
                forall|x: int| 0 <= x < entries@.len() ==> self.sessions@.contains_key(
                    #[trigger] entries@[x].0,
                ) && self.sessions@[entries@[x].0] == entries@[x].1,
                forall|x: int, y: int|
                    0 <= x < y < entries@.len() ==> (#[trigger] entries@[x]).0 < (
                    #[trigger] entries@[y]).0,
                forall|k: u128|
                    #[trigger] r@.contains(k) <==> (exists|x: int|
                        0 <= x < i && #[trigger] entries@[x].0 == k && match device {
                            Some(d) => entries@[x].1.device_id == d,
                            None => entries@[x].1.team_id == team->0,
                        }),
                forall|a: int, b: int| 0 <= a < b < r@.len() ==> r@[a] < r@[b],
                forall|a: int|
                    #![trigger r@[a]]
                    0 <= a < r@.len() ==> exists|x: int|
                        #![trigger entries@[x]]
                        0 <= x < i && entries@[x].0 == r@[a],
            decreases entries.len() - i,
        {
            let (k, s) = entries[i];
            let keep = match device {
                Some(d) => s.device_id == d,
                None => s.team_id == team.unwrap(),
            };
            let ghost before = r@;
            if keep {
                r.push(k);
                proof {
                    assert forall|a: int, b: int| 0 <= a < b < r@.len() implies r@[a] < r@[b] by {
                        if b == r@.len() - 1 {
                            let x = choose|x: int| #![trigger entries@[x]] 0 <= x < i && entries@[x].0 == before[a];
                            assert(entries@[x].0 < entries@[i as int].0);
                        }
                    }
                    assert forall|a: int| #![trigger r@[a]] 0 <= a < r@.len() implies exists|x: int|
                        #![trigger entries@[x]]
                        0 <= x < i + 1 && entries@[x].0 == r@[a] by {
                        if a == r@.len() - 1 {
                            assert(entries@[i as int].0 == r@[a]);
                        } else {
                            let x = choose|x: int| #![trigger entries@[x]] 0 <= x < i && entries@[x].0 == before[a];
                            assert(entries@[x].0 == r@[a]);
                        }
                    }
                }
            }
            proof {
                assert forall|kk: u128| #[trigger] r@.contains(kk) <==> (exists|x: int|
                    0 <= x < i + 1 && #[trigger] entries@[x].0 == kk && match device {
                        Some(d) => entries@[x].1.device_id == d,
                        None => entries@[x].1.team_id == team->0,
                    }) by {
                    if r@.contains(kk) {
                        let y = choose|y: int| 0 <= y < r@.len() && r@[y] == kk;
                        if keep && y == r@.len() - 1 {
                            assert(entries@[i as int].0 == kk);
                        } else {
                            assert(before[y] == kk);
                            assert(before.contains(kk));
                        }
                    }
                    if exists|x: int|
                        0 <= x < i + 1 && #[trigger] entries@[x].0 == kk && match device {
                            Some(d) => entries@[x].1.device_id == d,
                            None => entries@[x].1.team_id == team->0,
                        } {
                        let x = choose|x: int|
                            0 <= x < i + 1 && #[trigger] entries@[x].0 == kk && match device {
                                Some(d) => entries@[x].1.device_id == d,
                                None => entries@[x].1.team_id == team->0,
                            };
                        if x < i {
                            assert(before.contains(kk));
                            let y = choose|y: int| 0 <= y < before.len() && before[y] == kk;
                            assert(r@[y] == kk);
                        } else {
                            assert(r@[r@.len() - 1] == kk);
                        }
                    }
                }
            }
            i = i + 1;
        }
        proof {
            assert forall|kk: u128|
                #[trigger] r@.contains(kk) <==> (self.view_map().contains_key(kk) && match device {
                    Some(d) => self.view_map()[kk].device_id == d,
                    None => self.view_map()[kk].team_id == team->0,
                }) by {
                if self.view_map().contains_key(kk) {
                    let x = choose|x: int| 0 <= x < entries@.len() && #[trigger] entries@[x].0 == kk;
                    assert(entries@[x].1 == self.view_map()[kk]);
                }
            }
        }
        r
    }

    /// Registers connection `key` for `device_id` in `team_id`. A real
    /// (non-nil) device keeps one connection: its older sessions are dropped.
    pub fn register_client(&mut self, key: u128, device_id: u128, team_id: u128)
        ensures
            final(self).view_map() == (if device_id != NIL_ID {
                without_device(old(self).view_map(), device_id)
            } else {
                old(self).view_map()
            }).insert(key, Session { device_id, team_id }),
    {
        if device_id != NIL_ID {
            let stale = self.keys_matching(Some(device_id), None);
            let ghost start = self.sessions@;
            let mut i: usize = 0;
            while i < stale.len()
                invariant
                    i <= stale.len(),
                    forall|k: u128|
                        #[trigger] stale@.contains(k) <==> (start.contains_key(k) && start[k].device_id
                            == device_id),
                    forall|k: u128| #[trigger]
                        self.sessions@.contains_key(k) ==> start.contains_key(k)
                            && self.sessions@[k] == start[k],
                    forall|k: u128|
                        #[trigger] start.contains_key(k) && start[k].device_id != device_id
                            ==> self.sessions@.contains_key(k),
                    forall|x: int| 0 <= x < i ==> !self.sessions@.contains_key(#[trigger] stale@[x]),
                decreases stale.len() - i,
            {
                let k = stale[i];
                proof {
                    assert(stale@.contains(k));
                }
                self.sessions.remove(&k);
                i = i + 1;
            }
            proof {
                assert forall|k: u128| #[trigger] start.contains_key(k) && start[k].device_id == device_id
                    implies !self.sessions@.contains_key(k) by {
                    assert(stale@.contains(k));
                    let x = choose|x: int| 0 <= x < stale@.len() && stale@[x] == k;
                    assert(!self.sessions@.contains_key(stale@[x]));
                }
                assert(self.sessions@ =~= without_device(start, device_id));
            }
        }
        self.sessions.insert(key, Session { device_id, team_id });
    }

    /// Points connection `key` at `device_id` and `team_id`, if it is registered.
    pub fn update_session(&mut self, key: u128, device_id: u128, team_id: u128)
        ensures
            final(self).view_map() == (if old(self).view_map().contains_key(key) {
                old(self).view_map().insert(key, Session { device_id, team_id })
            } else {
                old(self).view_map()
            }),
    {
        if self.sessions.contains_key(&key) {
            self.sessions.insert(key, Session { device_id, team_id });
        }
    }

    /// Points connection `key` at `team_id`, keeping its device, if it is registered.
    pub fn set_team(&mut self, key: u128, team_id: u128)
        ensures
            final(self).view_map() == (if old(self).view_map().contains_key(key) {
                old(self).view_map().insert(
                    key,
                    Session { team_id, ..old(self).view_map()[key] },
                )
            } else {
                old(self).view_map()
            }),
    {
        match self.sessions.get(&key) {
            Some(s) => {
                let device_id = s.device_id;
                self.sessions.insert(key, Session { device_id, team_id });
            },
            None => {},
        }
    }

    /// Drops connection `key`.
    pub fn unregister_client(&mut self, key: u128)
        ensures
            final(self).view_map() == old(self).view_map().remove(key),
    {
        self.sessions.remove(&key);
    }

    /// The session of connection `key`.
    pub fn session(&self, key: u128) -> (r: Option<Session>)
        ensures
            r == (if self.view_map().contains_key(key) {
                Some(self.view_map()[key])
            } else {
                None::<Session>
            }),
    {
        match self.sessions.get(&key) {
            Some(s) => Some(*s),
            None => None,
        }
    }

    /// The connections a message for `to` goes to, in increasing key order.
    pub fn recipients(&self, to: Recipient) -> (r: Vec<u128>)
        ensures
            forall|k: u128|
                #[trigger] r@.contains(k) <==> (self.view_map().contains_key(k) && match to {
                    Recipient::Device(d) => self.view_map()[k].device_id == d,
                    Recipient::Team(t) => self.view_map()[k].team_id == t,
                    Recipient::Connection(c) => k == c,
                }),
            forall|i: int, j: int| 0 <= i < j < r@.len() ==> r@[i] < r@[j],
    {
        match to {
            Recipient::Device(d) => self.keys_matching(Some(d), None),
            Recipient::Team(t) => self.keys_matching(None, Some(t)),
            Recipient::Connection(c) => {
                let mut r: Vec<u128> = Vec::new();
                if self.sessions.contains_key(&c) {
                    r.push(c);
                }
                proof {
                    assert forall|k: u128| #[trigger] r@.contains(k) <==> (self.view_map().contains_key(k) && k == c) by {
                        if r@.contains(k) {
                            assert(r@[0] == k);
                        }
                        if self.view_map().contains_key(k) && k == c {
                            assert(r@[0] == k);
                        }
                    }
                }
                r
            },
        }
    }
}

/// After a real device registers a connection, that connection is the only
/// session of the device.
pub proof fn lemma_register_keeps_one_session(
    m: Map<u128, Session>,
    key: u128,
    device_id: u128,
    team_id: u128,
    other: u128,
)
    requires
        device_id != NIL_ID,
        without_device(m, device_id).insert(key, Session { device_id, team_id }).contains_key(other),
        without_device(m, device_id).insert(key, Session { device_id, team_id })[other].device_id
            == device_id,
    ensures
        other == key,
{
}

/// `task` with its version advanced by one (wrapping at 2^64, as the
/// unchecked increment does in an optimised build).
pub open spec fn bumped(task: Task) -> Task {
    Task {
        version: if task.version == u64::MAX {
            0u64
        } else {
            (task.version + 1) as u64
        },
        ..task
    }
}

fn bump(version: u64) -> (r: u64)
    ensures
        r == (if version == u64::MAX {
            0u64
        } else {
            (version + 1) as u64
        }),
{
    if version == u64::MAX {
        0
    } else {
        version + 1
    }
}

/// The position of the first task with id `id` among `tasks`.
pub open spec fn first_task(tasks: Seq<Task>, id: u128) -> Option<int> {
    crate::collaboration::client::queue::find_task(tasks, id)
}

fn find_first(tasks: &[Task], id: u128) -> (r: Option<usize>)
    ensures
        match r {
            Some(i) => first_task(tasks@, id) == Some(i as int) && i < tasks@.len(),
            None => first_task(tasks@, id) is None,
        },
{
    let mut i: usize = 0;
    while i < tasks.len()
        invariant
            i <= tasks.len(),
            forall|j: int| 0 <= j < i ==> tasks@[j].id != id,
        decreases tasks.len() - i,
    {
        if tasks[i].id == id {
            proof {
                use_first(tasks@, id, i as int);
            }
            return Some(i);
        }
        i = i + 1;
    }
    None
}

proof fn use_first(tasks: Seq<Task>, id: u128, i: int)
    requires
        0 <= i < tasks.len(),
        tasks[i].id == id,
        forall|j: int| 0 <= j < i ==> tasks[j].id != id,
    ensures
        first_task(tasks, id) == Some(i),
{
    assert(is_first_with_id(tasks, id, i));
    let c = choose|k: int| is_first_with_id(tasks, id, k);
    lemma_first_with_id_unique(tasks, id, i, c);
}

fn error_to(to: Recipient, text: &str) -> (r: Outgoing)
    ensures
        r.to == to,
        r.message matches ServerMessage::Error { message } && message@ == text@,
{
    Outgoing { to, message: ServerMessage::Error { message: string_of(chars_of(text).as_slice()) } }
}

/// The task an `AddTask` request stores: a new task for `url` by
/// `device_id` in `team_id`, already `Queued`.
pub fn add_task_request(device_id: u128, team_id: u128, url: String) -> (r: Task)
    ensures
        r.url == url,
        r.team_id == team_id,
        r.created_by == device_id,
        r.status == TaskStatus::Queued,
        r.claimed_by is None,
        r.claimed_at is None,
        r.progress == crate::collaboration::types::PROGRESS_ZERO,
        r.version == 1,
{
    let mut task = Task::new(url, team_id, device_id);
    task.status = TaskStatus::Queued;
    task
}

/// The reply when storing an added task failed with `error_text`: a
/// duplicate URL is reported as such, anything else with the error text.
pub fn plan_add_task_failed(device_id: u128, error_text: &str) -> (r: Outgoing)
    ensures
        r.to == Recipient::Device(device_id),
        r.message matches ServerMessage::Error { message } && message@ == (if contains_spec(
            error_text@,
            "URL already exists"@,
        ) {
            "URL already exists"@
        } else {
            "Failed to create task: "@ + error_text@
        }),
{
    let text = chars_of(error_text);
    let dup = chars_of("URL already exists");
    if contains(text.as_slice(), dup.as_slice()) {
        Outgoing { to: Recipient::Device(device_id), message: ServerMessage::Error { message: string_of(dup.as_slice()) } }
    } else {
        let mut m = chars_of("Failed to create task: ");
        append(&mut m, text.as_slice());
        Outgoing { to: Recipient::Device(device_id), message: ServerMessage::Error { message: string_of(m.as_slice()) } }
    }
}

/// The reply to `ClaimTask`: an unknown task and a task that is not
/// `Queued` are refused; otherwise the task is claimed by the device, its
/// version advanced, and the team told once it is stored.
pub fn plan_claim(tasks: &[Task], task_id: u128, device_id: u128, team_id: u128, at: Timestamp) -> (r:
    TaskPlan)
    ensures
        match first_task(tasks@, task_id) {
            None => r matches TaskPlan::Reply(msgs) && msgs@.len() == 1 && msgs@[0].to
                == Recipient::Device(device_id) && (msgs@[0].message matches ServerMessage::Error {
                message,
            } && message@ == "Task not found"@),
            Some(i) => if tasks@[i].status != TaskStatus::Queued {
                r matches TaskPlan::Reply(msgs) && msgs@.len() == 1 && msgs@[0].to
                    == Recipient::Device(device_id) && (msgs@[0].message matches ServerMessage::Error {
                    message,
                } && message@ == "Task not available"@)
            } else {
                r matches TaskPlan::Store { task, on_success } && task == bumped(
                    crate::collaboration::client::queue::claimed(tasks@[i], device_id, at),
                ) && on_success@.len() == 1 && on_success@[0].to == Recipient::Team(team_id)
                    && on_success@[0].message == (ServerMessage::TaskClaimed { task_id, device_id })
            },
        },
{
    match find_first(tasks, task_id) {
        None => {
            let mut v = Vec::new();
            v.push(error_to(Recipient::Device(device_id), "Task not found"));
            TaskPlan::Reply(v)
        },
        Some(i) => {
            if tasks[i].status != TaskStatus::Queued {
                let mut v = Vec::new();
                v.push(error_to(Recipient::Device(device_id), "Task not available"));
                return TaskPlan::Reply(v);
            }
            let mut task = tasks[i].duplicate();
            task.status = TaskStatus::Claimed;
            task.claimed_by = Some(device_id);
            task.claimed_at = Some(at);
            task.progress_at = Some(at);
            task.version = bump(task.version);
            let mut v = Vec::new();
            v.push(Outgoing { to: Recipient::Team(team_id), message: ServerMessage::TaskClaimed { task_id, device_id } });
            TaskPlan::Store { task, on_success: v }
        },
    }
}

/// `task` after its claimer reported `progress` at `at`.
pub open spec fn progress_reported(task: Task, progress: u64, at: Timestamp) -> Task {
    Task { progress, progress_at: Some(at), ..task }
}

/// The reply to `UpdateProgress` received at `at`: only the device that
/// claimed the task may report progress; the stored task gets the progress,
/// the time of the report and a new version, and the team is sent the
/// updated task.
pub fn plan_progress(
    tasks: &[Task],
    task_id: u128,
    device_id: u128,
    team_id: u128,
    progress: u64,
    at: Timestamp,
) -> (r: TaskPlan)
    ensures
        match first_task(tasks@, task_id) {
            None => r is Nothing,
            Some(i) => if tasks@[i].claimed_by != Some(device_id) {
                r is Nothing
            } else {
                r matches TaskPlan::Store { task, on_success } && task == bumped(
                    progress_reported(tasks@[i], progress, at),
                ) && on_success@.len() == 1 && on_success@[0].to == Recipient::Team(team_id)
                    && on_success@[0].message == (ServerMessage::TaskUpdated { task })
            },
        },
{
    match find_first(tasks, task_id) {
        None => TaskPlan::Nothing,
        Some(i) => {
            if tasks[i].claimed_by != Some(device_id) {
                return TaskPlan::Nothing;
            }
            let mut task = tasks[i].duplicate();
            task.progress = progress;
            task.progress_at = Some(at);
            task.version = bump(task.version);
            let mut v = Vec::new();
            v.push(Outgoing { to: Recipient::Team(team_id), message: ServerMessage::TaskUpdated { task: task.duplicate() } });
            TaskPlan::Store { task, on_success: v }
        },
    }
}

/// `task` finished by its claimer with the given file.
pub open spec fn finished(task: Task, local_path: String, file_size: u64) -> Task {
    Task {
        status: TaskStatus::Complete,
        local_path: Some(local_path),
        file_size: Some(file_size),
        progress: PROGRESS_ONE,
        ..task
    }
}

/// The reply to `TaskComplete`: only the device that claimed the task may
/// complete it; the stored task becomes `Complete` with the file, progress
/// 1.0 and a new version, and the team is sent the updated task.
pub fn plan_complete(
    tasks: &[Task],
    task_id: u128,
    device_id: u128,
    team_id: u128,
    local_path: String,
    file_size: u64,
) -> (r: TaskPlan)
    ensures
        match first_task(tasks@, task_id) {
            None => r is Nothing,
            Some(i) => if tasks@[i].claimed_by != Some(device_id) {
                r is Nothing
            } else {
                r matches TaskPlan::Store { task, on_success } && task == bumped(
                    finished(tasks@[i], local_path, file_size),
                ) && on_success@.len() == 1 && on_success@[0].to == Recipient::Team(team_id)
                    && on_success@[0].message == (ServerMessage::TaskUpdated { task })
                    && task.status == TaskStatus::Complete && task.local_path == Some(local_path)
                    && task.file_size == Some(file_size) && task.progress == PROGRESS_ONE
                    && task.id == tasks@[i].id && task.claimed_by == Some(device_id)
            },
        },
{
    match find_first(tasks, task_id) {
        None => TaskPlan::Nothing,
        Some(i) => {
            if tasks[i].claimed_by != Some(device_id) {
                return TaskPlan::Nothing;
            }
            let mut task = tasks[i].duplicate();
            task.status = TaskStatus::Complete;
            task.local_path = Some(local_path);
            task.file_size = Some(file_size);
            task.progress = PROGRESS_ONE;
            task.version = bump(task.version);
            let mut v = Vec::new();
            v.push(Outgoing { to: Recipient::Team(team_id), message: ServerMessage::TaskUpdated { task: task.duplicate() } });
            TaskPlan::Store { task, on_success: v }
        },
    }
}

/// The last component of a path: `std::path::Path::file_name`, empty when
/// there is none, as text.
pub uninterp spec fn file_name_text(path: Seq<char>) -> Seq<char>;

/// `Path::new(path).file_name()`, empty when there is none, as text.
///
/// The contract names the result; the standard library's rules for path
/// components are left to that name.
#[verifier::external_body]
fn file_name_of(path: &str) -> (r: String)
    ensures
        r@ == file_name_text(path@),
{
    std::path::Path::new(path).file_name().unwrap_or_default().to_string_lossy().to_string()
}

/// The claimer of the requested task, if the task exists and is claimed.
pub fn file_request_owner(tasks: &[Task], task_id: u128) -> (r: Option<(u128, usize)>)
    ensures
        match first_task(tasks@, task_id) {
            None => r is None,
            Some(i) => match tasks@[i].claimed_by {
                None => r is None,
                Some(owner) => r == Some((owner, i as usize)),
            },
        },
{
    match find_first(tasks, task_id) {
        None => None,
        Some(i) => match tasks[i].claimed_by {
            None => None,
            Some(owner) => Some((owner, i)),
        },
    }
}

/// The `FileAvailable` message telling `device_id` where to fetch the file
/// of `task` from its owner: the owner's public address when the owner's
/// record was found (else `0.0.0.0`), its port (else 0), the file name of the
/// task's path (else empty) and the file size (else 0).
pub fn plan_file_available(
    device_id: u128,
    task_id: u128,
    owner_id: u128,
    owner: Option<Device>,
    task: &Task,
) -> (r: Outgoing)
    ensures
        r.to == Recipient::Device(device_id),
        r.message matches ServerMessage::FileAvailable { task_id: t, from_device, ip, port, filename, size } && t
            == task_id && from_device == owner_id && ip@ == (match owner {
            Some(d) => match d.public_ip {
                Some(a) => a@,
                None => "0.0.0.0"@,
            },
            None => "0.0.0.0"@,
        }) && port == (match owner {
            Some(d) => match d.public_port {
                Some(p) => p,
                None => 0u16,
            },
            None => 0u16,
        }) && filename@ == (match task.local_path {
            Some(p) => file_name_text(p@),
            None => Seq::<char>::empty(),
        }) && size == (match task.file_size {
            Some(s) => s,
            None => 0u64,
        }),
{
    let (ip, port) = match owner {
        Some(d) => (
            match d.public_ip {
                Some(a) => a,
                None => string_of(chars_of("0.0.0.0").as_slice()),
            },
            match d.public_port {
                Some(p) => p,
                None => 0u16,
            },
        ),
        None => (string_of(chars_of("0.0.0.0").as_slice()), 0u16),
    };
    let filename = match &task.local_path {
        Some(p) => file_name_of(p.as_str()),
        None => String::new(),
    };
    let size = match task.file_size {
        Some(s) => s,
        None => 0,
    };
    Outgoing {
        to: Recipient::Device(device_id),
        message: ServerMessage::FileAvailable { task_id, from_device: owner_id, ip, port, filename, size },
    }
}

/// Whether at least five minutes have passed from `since` to `now`.
pub open spec fn claim_expired(since: Timestamp, now: Timestamp) -> bool {
    now.total_nanos() - since.total_nanos() >= CLAIM_TIMEOUT_NANOS
}

/// The last sign of life of a claimed task: its last progress report, or
/// the claim itself where none is recorded.
pub open spec fn last_activity(task: Task, claimed_at: Timestamp) -> Timestamp {
    match task.progress_at {
        Some(p) => p,
        None => claimed_at,
    }
}

/// Whether the claim of `task` has timed out at `now`: it is claimed, no
/// progress was reported for at least five minutes, and its progress is
/// below 1.0.
pub open spec fn timed_out(task: Task, now: Timestamp) -> bool {
    match task.claimed_at {
        Some(c) => claim_expired(last_activity(task, c), now) && progress_below_one(task.progress),
        None => false,
    }
}

/// The ids of the tasks, in order, whose claim has timed out at `now`.
pub open spec fn timed_out_ids(tasks: Seq<Task>, now: Timestamp) -> Seq<u128>
    decreases tasks.len(),
{
    if tasks.len() == 0 {
        Seq::empty()
    } else if timed_out(tasks.last(), now) {
        timed_out_ids(tasks.drop_last(), now).push(tasks.last().id)
    } else {
        timed_out_ids(tasks.drop_last(), now)
    }
}

fn is_timed_out(task: &Task, now: Timestamp) -> (r: bool)
    ensures
        r == timed_out(*task, now),
{
    match task.claimed_at {
        None => false,
        Some(c) => {
            let at = match task.progress_at {
                Some(p) => p,
                None => c,
            };
            let elapsed: i128 = (now.secs as i128 - at.secs as i128) * 1_000_000_000 + (
            now.nanos as i128 - at.nanos as i128);
            elapsed >= CLAIM_TIMEOUT_NANOS && is_progress_below_one(task.progress)
        },
    }
}

/// The claimed tasks (as read for one team) to release at `now`.
pub fn plan_timeouts(tasks: &[Task], now: Timestamp) -> (r: Vec<u128>)
    ensures
        r@ == timed_out_ids(tasks@, now),
{
    let mut r: Vec<u128> = Vec::new();
    let mut i: usize = 0;
    assert(tasks@.subrange(0, 0) =~= Seq::<Task>::empty());
    while i < tasks.len()
        invariant
            i <= tasks.len(),
            r@ == timed_out_ids(tasks@.subrange(0, i as int), now),
        decreases tasks.len() - i,
    {
        assert(tasks@.subrange(0, i + 1).drop_last() =~= tasks@.subrange(0, i as int));
        assert(tasks@.subrange(0, i + 1).last() == tasks@[i as int]);
        if is_timed_out(&tasks[i], now) {
            r.push(tasks[i].id);
        }
        i = i + 1;
    }
    assert(tasks@.subrange(0, tasks@.len() as int) =~= tasks@);
    r
}

/// The notice sent to the team when a timed-out task was released.
pub fn plan_release_notice(team_id: u128, task_id: u128) -> (r: Outgoing)
    ensures
        r.to == Recipient::Team(team_id),
        r.message matches ServerMessage::TaskReleased { task_id: t, reason } && t == task_id
            && reason@ == "timeout"@,
{
    Outgoing {
        to: Recipient::Team(team_id),
        message: ServerMessage::TaskReleased { task_id, reason: string_of(chars_of("timeout").as_slice()) },
    }
}

/// The reply when creating a team failed with `error_text`.
pub fn plan_create_team_failed(key: u128, error_text: &str) -> (r: Outgoing)
    ensures
        r.to == Recipient::Connection(key),
        r.message matches ServerMessage::Error { message } && message@ == "创建团队失败: "@
            + error_text@,
{
    let mut m = chars_of("创建团队失败: ");
    append(&mut m, chars_of(error_text).as_slice());
    Outgoing { to: Recipient::Connection(key), message: ServerMessage::Error { message: string_of(m.as_slice()) } }
}

/// The reply when no team has the invite code.
pub fn plan_unknown_invite_code(key: u128) -> (r: Outgoing)
    ensures
        r.to == Recipient::Connection(key),
        r.message matches ServerMessage::Error { message } && message@ == "邀请码无效"@,
{
    error_to(Recipient::Connection(key), "邀请码无效")
}

/// The reply when looking the invite code up failed with `error_text`.
pub fn plan_team_lookup_failed(key: u128, error_text: &str) -> (r: Outgoing)
    ensures
        r.to == Recipient::Connection(key),
        r.message matches ServerMessage::Error { message } && message@ == "查询团队失败: "@
            + error_text@,
{
    let mut m = chars_of("查询团队失败: ");
    append(&mut m, chars_of(error_text).as_slice());
    Outgoing { to: Recipient::Connection(key), message: ServerMessage::Error { message: string_of(m.as_slice()) } }
}

/// The server's connection and task-distribution state.
pub struct Coordinator {
    pub sessions: SessionTable,
    pub hash_ring: HashRing,
}

impl Coordinator {
    /// No connections and an empty ring.
    pub fn new() -> (r: Coordinator)
        ensures
            r.sessions.view_map() == Map::<u128, Session>::empty(),
            r.hash_ring.nodes() == Map::<u64, u128>::empty(),
    {
        Coordinator { sessions: SessionTable::new(), hash_ring: HashRing::new() }
    }

    /// What follows storing an added `task` of `team_id`: when the ring has
    /// an owner for its URL, the task is claimed by the owner at `at`, the
    /// owner is told, and the team is sent the claimed task; otherwise the
    /// team is sent the task as stored.
    pub fn plan_task_added(&self, task: Task, team_id: u128, at: Timestamp) -> (r: AddTaskPlan)
        ensures
            match owner_spec(self.hash_ring.nodes(), url_hash(task.url@)) {
                Some(owner) => r.claim_update == Some(
                    crate::collaboration::client::queue::claimed(task, owner, at),
                ) && r.messages@.len() == 2 && r.messages@[0].to == Recipient::Device(owner)
                    && r.messages@[0].message == (ServerMessage::TaskClaimed {
                    task_id: task.id,
                    device_id: owner,
                }) && r.messages@[1].to == Recipient::Team(team_id) && r.messages@[1].message == (
                ServerMessage::TaskAdded {
                    task: crate::collaboration::client::queue::claimed(task, owner, at),
                }),
                None => r.claim_update is None && r.messages@.len() == 1 && r.messages@[0].to
                    == Recipient::Team(team_id) && r.messages@[0].message == (
                ServerMessage::TaskAdded { task }),
            },
    {
        match self.hash_ring.get_owner(task.url.as_str()) {
            Some(owner) => {
                let mut claimed = task;
                claimed.status = TaskStatus::Claimed;
                claimed.claimed_by = Some(owner);
                claimed.claimed_at = Some(at);
                claimed.progress_at = Some(at);
                let mut v = Vec::new();
                v.push(Outgoing { to: Recipient::Device(owner), message: ServerMessage::TaskClaimed { task_id: claimed.id, device_id: owner } });
                v.push(Outgoing { to: Recipient::Team(team_id), message: ServerMessage::TaskAdded { task: claimed.duplicate() } });
                AddTaskPlan { claim_update: Some(claimed), messages: v }
            },
            None => {
                let mut v = Vec::new();
                v.push(Outgoing { to: Recipient::Team(team_id), message: ServerMessage::TaskAdded { task } });
                AddTaskPlan { claim_update: None, messages: v }
            },
        }
    }

    /// What follows finding or creating `team` for connection `key`: the
    /// connection moves to the team and its device is sent the team; the
    /// returned placeholder device record (nil id, online, seen at `at`) is
    /// then registered under the team with `name`.
    pub fn plan_team_entered(
        &mut self,
        key: u128,
        team: &Team,
        entry: TeamEntry,
        name: String,
        at: Timestamp,
    ) -> (r: (Vec<Outgoing>, Device))
        ensures
            final(self).hash_ring == old(self).hash_ring,
            final(self).sessions.view_map() == (if old(self).sessions.view_map().contains_key(key) {
                old(self).sessions.view_map().insert(
                    key,
                    Session { team_id: team.id, ..old(self).sessions.view_map()[key] },
                )
            } else {
                old(self).sessions.view_map()
            }),
            old(self).sessions.view_map().contains_key(key) ==> r.0@.len() == 1 && r.0@[0].to
                == Recipient::Device(old(self).sessions.view_map()[key].device_id) && r.0@[0].message
                == (match entry {
                TeamEntry::Created => ServerMessage::TeamCreated { team: *team },
                TeamEntry::Joined => ServerMessage::TeamJoined { team: *team },
            }),
            !old(self).sessions.view_map().contains_key(key) ==> r.0@.len() == 0,
            r.1 == (Device {
                id: NIL_ID,
                team_id: team.id,
                name,
                public_ip: None,
                public_port: None,
                last_seen: at,
                is_online: true,
            }),
    {
        let mut msgs: Vec<Outgoing> = Vec::new();
        match self.sessions.session(key) {
            Some(s) => {
                self.sessions.set_team(key, team.id);
                let message = match entry {
                    TeamEntry::Created => ServerMessage::TeamCreated { team: team.duplicate() },
                    TeamEntry::Joined => ServerMessage::TeamJoined { team: team.duplicate() },
                };
                msgs.push(Outgoing { to: Recipient::Device(s.device_id), message });
            },
            None => {},
        }
        let device = Device {
            id: NIL_ID,
            team_id: team.id,
            name,
            public_ip: None,
            public_port: None,
            last_seen: at,
            is_online: true,
        };
        (msgs, device)
    }

    /// A device leaving its team is taken off the ring.
    pub fn leave_team(&mut self, device_id: u128)
        ensures
            final(self).sessions == old(self).sessions,
            final(self).hash_ring.nodes() == old(self).hash_ring.nodes().remove(
                crate::collaboration::crypto::hashring::device_hash(device_id),
            ),
    {
        self.hash_ring.remove_device(device_id);
    }
}

/// A task is claimed only from the `Queued` state, and only by the device
/// that asked: every claim plan stores the task `Claimed` by that device.
pub proof fn lemma_claim_only_from_queued(tasks: Seq<Task>, task_id: u128, device_id: u128, at: Timestamp)
    requires
        first_task(tasks, task_id) matches Some(i) && tasks[i].status == TaskStatus::Queued,
    ensures
        ({
            let i = first_task(tasks, task_id)->0;
            let t = bumped(crate::collaboration::client::queue::claimed(tasks[i], device_id, at));
            t.status == TaskStatus::Claimed && t.claimed_by == Some(device_id) && t.id == tasks[i].id
        }),
{
}

/// A finished task is never released for timing out: its progress is 1.0.
pub proof fn lemma_finished_not_timed_out(task: Task, local_path: String, file_size: u64, now: Timestamp)
    ensures
        !timed_out(bumped(finished(task, local_path, file_size)), now),
{
    assert(!progress_below_one(PROGRESS_ONE));
}

/// A claim whose holder reported progress less than five minutes ago is not
/// released, however long ago it was claimed.
pub proof fn lemma_recent_report_keeps_claim(task: Task, progress: u64, at: Timestamp, now: Timestamp)
    requires
        now.total_nanos() - at.total_nanos() < CLAIM_TIMEOUT_NANOS,
    ensures
        !timed_out(bumped(progress_reported(task, progress, at)), now),
{
}

/// A claim is released once five minutes pass without a progress report
/// while its progress is below 1.0.
pub proof fn lemma_quiet_claim_released(task: Task, progress: u64, at: Timestamp, now: Timestamp)
    requires
        task.claimed_at is Some,
        progress_below_one(progress),
        now.total_nanos() - at.total_nanos() >= CLAIM_TIMEOUT_NANOS,
    ensures
        timed_out(bumped(progress_reported(task, progress, at)), now),
{
}


/// Completing a task by its claimer finishes it: the stored task is
/// `Complete`, carries the file's path and size and progress 1.0, and keeps
/// its id, URL, team and claimer.
pub proof fn lemma_completion_finishes_task(task: Task, local_path: String, file_size: u64)
    ensures
        bumped(finished(task, local_path, file_size)).status == TaskStatus::Complete,
        bumped(finished(task, local_path, file_size)).local_path == Some(local_path),
        bumped(finished(task, local_path, file_size)).file_size == Some(file_size),
        bumped(finished(task, local_path, file_size)).progress == PROGRESS_ONE,
        bumped(finished(task, local_path, file_size)).id == task.id,
        bumped(finished(task, local_path, file_size)).url == task.url,
        bumped(finished(task, local_path, file_size)).team_id == task.team_id,
        bumped(finished(task, local_path, file_size)).claimed_by == task.claimed_by,
{
}

} // verus!
