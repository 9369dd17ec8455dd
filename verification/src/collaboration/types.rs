//! Core data of collaboration: teams, devices, tasks and the messages that
//! devices and the server exchange.
//!
//! UUIDs are held as their 128-bit values, instants as `Timestamp`, and a
//! task's progress fraction as the IEEE-754 bit pattern of the `f64` the
//! wire protocol carries (`f64::to_bits`), so that it round-trips exactly.

use crate::collaboration::ids::{new_uuid, now, Timestamp};
use vstd::prelude::*;

verus! {

/// Bit pattern of the `f64` value 0.0.
pub const PROGRESS_ZERO: u64 = 0;

/// Bit pattern of the `f64` value 1.0.
pub const PROGRESS_ONE: u64 = 0x3FF0_0000_0000_0000;

/// Whether the `f64` with bit pattern `bits` compares below 1.0
/// (false for NaN, true for every negative value and for -0.0).
pub open spec fn progress_below_one(bits: u64) -> bool {
    let exponent = (bits / 0x10_0000_0000_0000) % 0x800;
    let mantissa = bits % 0x10_0000_0000_0000;
    if exponent == 0x7FF && mantissa != 0 {
        false
    } else if bits >= 0x8000_0000_0000_0000 {
        true
    } else {
        bits < PROGRESS_ONE
    }
}

/// Whether the `f64` with bit pattern `bits` compares below 1.0.
pub fn is_progress_below_one(bits: u64) -> (r: bool)
    ensures
        r == progress_below_one(bits),
{
    let exponent = (bits / 0x10_0000_0000_0000) % 0x800;
    let mantissa = bits % 0x10_0000_0000_0000;
    if exponent == 0x7FF && mantissa != 0 {
        false
    } else if bits >= 0x8000_0000_0000_0000 {
        true
    } else {
        bits < PROGRESS_ONE
    }
}

/// A team of devices sharing one download queue.
#[derive(Clone, Debug)]
pub struct Team {
    pub id: u128,
    pub name: String,
    pub invite_code: String,
    pub created_at: Timestamp,
}

/// A device registered with a team.
#[derive(Clone, Debug)]
pub struct Device {
    pub id: u128,
    pub team_id: u128,
    pub name: String,
    pub public_ip: Option<String>,
    pub public_port: Option<u16>,
    pub last_seen: Timestamp,
    pub is_online: bool,
}

/// Lifecycle of a download task.
#[derive(Clone, Copy, Debug, PartialEq, Eq, Structural)]
pub enum TaskStatus {
    New,
    Queued,
    Claimed,
    Complete,
    Failed,
}

impl Default for TaskStatus {
    fn default() -> (r: TaskStatus)
        ensures
            r == TaskStatus::New,
    {
        TaskStatus::New
    }
}

/// A download task of a team.
#[derive(Clone, Debug)]
pub struct Task {
    pub id: u128,
    pub team_id: u128,
    pub url: String,
    pub status: TaskStatus,
    pub claimed_by: Option<u128>,
    pub claimed_at: Option<Timestamp>,
    /// When the claimer last reported progress (the claim counts as a
    /// report); a claim times out after five minutes without one.
    pub progress_at: Option<Timestamp>,
    /// Progress fraction as the bit pattern of an `f64`.
    pub progress: u64,
    pub local_path: Option<String>,
    pub file_size: Option<u64>,
    pub created_by: u128,
    pub created_at: Timestamp,
    pub version: u64,
}

/// A copy of an optional string.
pub fn copy_opt_string(s: &Option<String>) -> (r: Option<String>)
    ensures
        r == *s,
{
    match s {
        Some(v) => Some(v.clone()),
        None => None,
    }
}

impl Team {
    /// An exact copy.
    pub fn duplicate(&self) -> (r: Team)
        ensures
            r == *self,
    {
        Team {
            id: self.id,
            name: self.name.clone(),
            invite_code: self.invite_code.clone(),
            created_at: self.created_at,
        }
    }
}

impl Device {
    /// An exact copy.
    pub fn duplicate(&self) -> (r: Device)
        ensures
            r == *self,
    {
        Device {
            id: self.id,
            team_id: self.team_id,
            name: self.name.clone(),
            public_ip: copy_opt_string(&self.public_ip),
            public_port: self.public_port,
            last_seen: self.last_seen,
            is_online: self.is_online,
        }
    }
}

impl Task {
    /// A new task for `url`, created by `created_by` in `team_id`: a fresh
    /// random id, status `New`, unclaimed, no progress, version 1, created now.
    pub fn new(url: String, team_id: u128, created_by: u128) -> (r: Task)
        ensures
            r.url == url,
            r.team_id == team_id,
            r.created_by == created_by,
            r.status == TaskStatus::New,
            r.claimed_by is None,
            r.claimed_at is None,
            r.progress_at is None,
            r.progress == PROGRESS_ZERO,
            r.local_path is None,
            r.file_size is None,
            r.version == 1,
    {
        Task {
            id: new_uuid(),
            team_id,
            url,
            status: TaskStatus::New,
            claimed_by: None,
            claimed_at: None,
            progress_at: None,
            progress: PROGRESS_ZERO,
            local_path: None,
            file_size: None,
            created_by,
            created_at: now(),
            version: 1,
        }
    }

    /// An exact copy.
    pub fn duplicate(&self) -> (r: Task)
        ensures
            r == *self,
    {
        Task {
            id: self.id,
            team_id: self.team_id,
            url: self.url.clone(),
            status: self.status,
            claimed_by: self.claimed_by,
            claimed_at: self.claimed_at,
            progress_at: self.progress_at,
            progress: self.progress,
            local_path: copy_opt_string(&self.local_path),
            file_size: self.file_size,
            created_by: self.created_by,
            created_at: self.created_at,
            version: self.version,
        }
    }
}

/// Messages from a device to the server.
#[derive(Clone, Debug)]
pub enum ClientMessage {
    Register { device_id: u128, team_id: u128, name: String },
    CreateTeam { name: String },
    JoinTeam { invite_code: String },
    Heartbeat { device_id: u128 },
    AddTask { url: String },
    ClaimTask { task_id: u128 },
    UpdateProgress { task_id: u128, progress: u64 },
    TaskComplete { task_id: u128, local_path: String, file_size: u64 },
    RequestFile { task_id: u128 },
    LeaveTeam { device_id: u128 },
}

/// Messages from the server to devices.
#[derive(Clone, Debug)]
pub enum ServerMessage {
    Registered { device_id: u128 },
    TeamCreated { team: Team },
    TeamJoined { team: Team },
    TeamDevices { devices: Vec<Device> },
    TaskAdded { task: Task },
    TaskClaimed { task_id: u128, device_id: u128 },
    TaskUpdated { task: Task },
    TaskReleased { task_id: u128, reason: String },
    FileAvailable {
        task_id: u128,
        from_device: u128,
        ip: String,
        port: u16,
        filename: String,
        size: u64,
    },
    DeviceOnline { device: Device },
    DeviceOffline { device_id: u128 },
    Error { message: String },
}

} // verus!
