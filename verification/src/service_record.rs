//! The service record (`service.json`): what one launcher leaves for the next.
//!
//! A launcher that starts dsh writes its pid, port and creation time; the next
//! launcher adopts the service when the pid is alive, is dsh, was created at
//! the recorded time (a reused pid would not be) and listens on the port.
use vstd::prelude::*;

use crate::paths::{
    app_data_dir_in, app_data_dir_spec, join, join_path, local_data_dir_in, local_data_dir_spec, platform_dirs, PlatformDirs,
};
use crate::text::{dec, push_str, push_u64, string_from_chars};

verus! {

/// The record format this program reads and writes.
pub const RECORD_VERSION: u32 = 1;

/// How far the recorded creation time may be from the process's own, in seconds.
pub const START_TIME_TOLERANCE_SECS: u64 = 2;

/// A service record.
#[derive(Debug, Clone, PartialEq)]
pub struct ServiceRecord {
    /// The format version.
    pub version: u32,
    /// The dsh service's pid.
    pub pid: u32,
    /// The port it listens on.
    pub port: u16,
    /// Its image path (for a second identity check).
    pub exe: String,
    /// Its creation time, in seconds since the UNIX epoch.
    pub start_unix_secs: u64,
    /// The pid of the launcher that wrote the record (for the log only).
    pub launcher_pid: u32,
    /// When the record was written, in seconds since the UNIX epoch.
    pub recorded_unix_secs: u64,
}

/// `service.json` under the runtime data folder: regenerable state, which the
/// uninstaller removes; never under the roaming configuration folder, which it keeps.
pub open spec fn record_path_spec(d: PlatformDirs) -> Seq<char> {
    join(local_data_dir_spec(d), "service.json"@)
}

/// Where older versions wrote the record: `service.json` under the roaming
/// configuration folder (removed on first read).
pub open spec fn legacy_record_path_spec(d: PlatformDirs) -> Seq<char> {
    join(app_data_dir_spec(d), "service.json"@)
}

/// The record's file for the given platform folders.
pub fn record_path_in(dirs: &PlatformDirs) -> (r: String)
    ensures
        r@ == record_path_spec(*dirs),
{
    join_path(local_data_dir_in(dirs).as_str(), "service.json")
}

/// The older record's file for the given platform folders.
pub fn legacy_record_path_in(dirs: &PlatformDirs) -> (r: String)
    ensures
        r@ == legacy_record_path_spec(*dirs),
{
    join_path(app_data_dir_in(dirs).as_str(), "service.json")
}

/// `%LOCALAPPDATA%\DSHLauncher\service.json` (see [`record_path_in`]).
pub fn record_path() -> (r: String)
    ensures
        exists|d: PlatformDirs| r@ == record_path_spec(d),
{
    record_path_in(&platform_dirs())
}

/// `%APPDATA%\DSHLauncher\service.json` (see [`legacy_record_path_in`]).
pub fn legacy_record_path() -> (r: String)
    ensures
        exists|d: PlatformDirs| r@ == legacy_record_path_spec(d),
{
    legacy_record_path_in(&platform_dirs())
}

/// A process creation time: seconds since the UNIX epoch and the nanoseconds past them.
pub open spec fn time_nanos(secs: u64, nanos: u32) -> int {
    secs as int * 1_000_000_000 + nanos as int
}

/// The process still is the recorded service: alive, created at the recorded
/// time within the tolerance, and identified as dsh. Without a creation time a
/// reused pid cannot be excluded, so the record is not valid.
pub open spec fn still_valid_spec(rec: ServiceRecord, alive: bool, actual_start: Option<(u64, u32)>, is_dsh: bool) -> bool {
    &&& alive
    &&& actual_start is Some
    &&& {
        let (s, n) = actual_start->0;
        let diff = time_nanos(s, n) - rec.start_unix_secs as int * 1_000_000_000;
        -(START_TIME_TOLERANCE_SECS as int) * 1_000_000_000 <= diff <= START_TIME_TOLERANCE_SECS as int
            * 1_000_000_000
    }
    &&& is_dsh
}

impl ServiceRecord {
    /// A record for a process confirmed to be dsh.
    pub fn from_facts(pid: u32, port: u16, exe: &str, start_unix_secs: u64, launcher_pid: u32, now_unix_secs: u64) -> (r: ServiceRecord)
        ensures
            r.version == RECORD_VERSION,
            r.pid == pid,
            r.port == port,
            r.exe@ == exe@,
            r.start_unix_secs == start_unix_secs,
            r.launcher_pid == launcher_pid,
            r.recorded_unix_secs == now_unix_secs,
    {
        ServiceRecord {
            version: RECORD_VERSION,
            pid,
            port,
            exe: string_from_chars(crate::text::chars_of(exe).as_slice()),
            start_unix_secs,
            launcher_pid,
            recorded_unix_secs: now_unix_secs,
        }
    }

    /// The recorded creation time, in seconds since the UNIX epoch.
    pub fn start_time(&self) -> (r: u64)
        ensures
            r == self.start_unix_secs,
    {
        self.start_unix_secs
    }

    /// Whether the record still describes the running dsh service, given
    /// whether its pid is alive, the pid's creation time and whether it is dsh.
    pub fn still_valid(&self, alive: bool, actual_start: Option<(u64, u32)>, is_dsh: bool) -> (r: bool)
        ensures
            r == still_valid_spec(*self, alive, actual_start, is_dsh),
    {
        if !alive {
            return false;
        }
        let (s, n) = match actual_start {
            Some(t) => t,
            None => return false,
        };
        let actual: u128 = (s as u128) * 1_000_000_000 + (n as u128);
        let expected: u128 = (self.start_unix_secs as u128) * 1_000_000_000;
        let tol: u128 = (START_TIME_TOLERANCE_SECS as u128) * 1_000_000_000;
        let diff: u128 = if actual >= expected {
            actual - expected
        } else {
            expected - actual
        };
        if diff > tol {
            return false;
        }
        is_dsh
    }
}

/// A record read from disk is used only in the known format version.
pub fn accept_record(rec: ServiceRecord) -> (r: Option<ServiceRecord>)
    ensures
        r == if rec.version == RECORD_VERSION {
            Some(rec)
        } else {
            None::<ServiceRecord>
        },
{
    if rec.version != RECORD_VERSION {
        None
    } else {
        Some(rec)
    }
}

/// The outcome of reconciling the record at start-up.
#[derive(Debug, Clone, PartialEq)]
pub enum Reconciliation {
    /// No record.
    NoRecord,
    /// The recorded dsh is alive and listening: adopt it, do not restart.
    Adopt { pid: u32, port: u16 },
    /// The record is stale (the process exited, or the pid was reused); it is cleared.
    Stale { reason: String },
    /// The process is alive but no longer listens on its port.
    Orphan { pid: u32, port: u16 },
}

pub open spec fn exited_reason(pid: u32) -> Seq<char> {
    "记录的 PID "@ + dec(pid as nat) + " 已退出"@
}

pub open spec fn reused_reason(pid: u32) -> Seq<char> {
    "PID "@ + dec(pid as nat) + " 的身份或创建时间与记录不符（疑似 PID 复用），已清理记录"@
}

/// Reconciles the record (the caller clears it when the outcome is `Stale`).
pub fn reconcile(rec: Option<ServiceRecord>, alive: bool, valid: bool, listening: bool) -> (r: Reconciliation)
    ensures
        match rec {
            None => r == Reconciliation::NoRecord,
            Some(x) => if !alive {
                r matches Reconciliation::Stale { reason } && reason@ == exited_reason(x.pid)
            } else if !valid {
                r matches Reconciliation::Stale { reason } && reason@ == reused_reason(x.pid)
            } else if listening {
                r == (Reconciliation::Adopt { pid: x.pid, port: x.port })
            } else {
                r == (Reconciliation::Orphan { pid: x.pid, port: x.port })
            },
        },
{
    let x = match rec {
        None => return Reconciliation::NoRecord,
        Some(x) => x,
    };
    if !alive {
        let mut v: Vec<char> = Vec::new();
        push_str(&mut v, "记录的 PID ");
        push_u64(&mut v, x.pid as u64);
        push_str(&mut v, " 已退出");
        return Reconciliation::Stale { reason: string_from_chars(v.as_slice()) };
    }
    if !valid {
        let mut v: Vec<char> = Vec::new();
        push_str(&mut v, "PID ");
        push_u64(&mut v, x.pid as u64);
        push_str(&mut v, " 的身份或创建时间与记录不符（疑似 PID 复用），已清理记录");
        return Reconciliation::Stale { reason: string_from_chars(v.as_slice()) };
    }
    if listening {
        Reconciliation::Adopt { pid: x.pid, port: x.port }
    } else {
        Reconciliation::Orphan { pid: x.pid, port: x.port }
    }
}

} // verus!
