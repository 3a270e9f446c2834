//! The service's life cycle as decisions: start or adopt, readiness, stop,
//! and the monitor that heals a lost service.
//!
//! ```text
//! Stopped ──start──► Starting ──ready──► Running
//!    ▲                  │                   │
//!    │                  │ child gone/timeout │ lost, restarts used up
//!    │                  ▼                   ▼
//!    │                Error ◄───────────────┘
//!    │                  │
//!    │  dsh on the port ▼
//!    └────────────── External ──lost──► Error
//! Stopping: while stop() reclaims the process tree; never counted as lost.
//! ```
//!
//! The caller owns the threads, locks and processes; each function here takes
//! what the caller observed and answers what to do next.
use vstd::prelude::*;

use crate::process::{identity_summary, steps_of, DshIdentity};
use crate::service_record::Reconciliation;
use crate::text::{dec, push_str, push_u64, string_from_chars};

verus! {

/// The monitor probes every this many milliseconds.
pub const MONITOR_INTERVAL_MS: u64 = 1500;

/// Consecutive misses after which the service counts as lost (about 12 s).
pub const LOST_LIMIT: u32 = 8;

/// Automatic restarts of an own service before giving up.
pub const MAX_AUTO_RESTART: u32 = 3;

/// A service healthy for this long gets its restart quota back, in milliseconds.
pub const RESTART_QUOTA_REFILL_AFTER_MS: u64 = 300_000;

/// The budget for readiness after a start, in milliseconds.
pub const READY_BUDGET_MS: u64 = 120_000;

/// The service's state.
#[derive(Debug, Clone, Copy, PartialEq, Eq, Structural)]
pub enum ServiceState {
    Stopped,
    Starting,
    Running,
    /// Watching an instance started elsewhere (its token is out of reach).
    External,
    /// The process tree is being reclaimed.
    Stopping,
    /// Start failed, or the service was lost and could not be healed.
    Error,
}

pub open spec fn is_active_spec(s: ServiceState) -> bool {
    s == ServiceState::Starting || s == ServiceState::Running || s == ServiceState::External
}

impl ServiceState {
    /// The states in which the interface should work and the monitor counts
    /// misses; `Stopping` is not one of them.
    pub fn is_active(&self) -> (r: bool)
        ensures
            r == is_active_spec(*self),
    {
        match self {
            ServiceState::Starting | ServiceState::Running | ServiceState::External => true,
            _ => false,
        }
    }
}

/// What the service tells the main loop.
#[derive(Debug, Clone, PartialEq)]
pub enum ServiceEvent {
    StateChanged(ServiceState),
    /// Ready: with the token address when it is known, without it otherwise.
    Ready { url: Option<String> },
}

/// Why a service operation failed.
#[derive(Debug, Clone, PartialEq)]
pub enum ServiceError {
    Resolve(String),
    Start(String),
    Stop(String),
}

pub open spec fn service_error_text(e: ServiceError) -> Seq<char> {
    match e {
        ServiceError::Resolve(m) => "环境解析失败："@ + m@,
        ServiceError::Start(m) => "启动失败："@ + m@,
        ServiceError::Stop(m) => "停止失败："@ + m@,
    }
}

impl ServiceError {
    pub fn message(&self) -> (r: String)
        ensures
            r@ == service_error_text(*self),
    {
        let mut v: Vec<char> = Vec::new();
        match self {
            ServiceError::Resolve(m) => {
                push_str(&mut v, "环境解析失败：");
                push_str(&mut v, m.as_str());
            },
            ServiceError::Start(m) => {
                push_str(&mut v, "启动失败：");
                push_str(&mut v, m.as_str());
            },
            ServiceError::Stop(m) => {
                push_str(&mut v, "停止失败：");
                push_str(&mut v, m.as_str());
            },
        }
        string_from_chars(v.as_slice())
    }
}

/// The plain address of the service (without the token).
pub open spec fn plain_url_spec(port: u16) -> Seq<char> {
    "http://127.0.0.1:"@ + dec(port as nat) + "/"@
}

pub fn plain_url(port: u16) -> (r: String)
    ensures
        r@ == plain_url_spec(port),
{
    let mut v: Vec<char> = Vec::new();
    push_str(&mut v, "http://127.0.0.1:");
    push_u64(&mut v, port as u64);
    push_str(&mut v, "/");
    string_from_chars(v.as_slice())
}

/// The address to open: the token address when it is known, the plain one
/// only as a last resort.
pub fn ready_url(auth_url: &Option<String>, port: u16) -> (r: String)
    ensures
        r@ == match auth_url {
            Some(u) => u@,
            None => plain_url_spec(port),
        },
{
    match auth_url {
        Some(u) => u.clone(),
        None => plain_url(port),
    }
}

// ---------------------------------------------------------------------------
// The monitor
// ---------------------------------------------------------------------------

/// What the monitor decides on.
#[derive(Debug, Clone, Copy, PartialEq, Eq, Structural)]
pub struct Monitor {
    pub state: ServiceState,
    /// The service was spawned by this launcher.
    pub owns_process: bool,
    /// Automatic restarts in the current window.
    pub restarts: u32,
    /// Since when (in milliseconds of a monotonic clock) the service has answered.
    pub healthy_since_ms: Option<u64>,
    /// Consecutive misses.
    pub lost: u32,
}

/// What the monitor asks the caller to do.
#[derive(Debug, Clone, Copy, PartialEq, Eq, Structural)]
pub enum MonitorAction {
    /// Nothing.
    Idle,
    /// The service answers again: announce its state and readiness again.
    Reconnect,
    /// First miss: warn that the service does not answer.
    WarnUnresponsive,
    /// The own service is gone: start it again (the state is now `Stopped`).
    Restart,
    /// Lost for good: drop the adoption and the record (the state is now `Error`).
    GiveUp,
}

/// One monitor step's result.
#[derive(Debug, Clone, Copy, PartialEq, Eq, Structural)]
pub struct MonitorStep {
    pub next: Monitor,
    pub action: MonitorAction,
    /// The restart quota was given back (for the log).
    pub refilled: bool,
}

/// The restart quota comes back after a stretch of health; an unanswered probe
/// resets the stretch.
pub open spec fn refill_spec(m: Monitor, alive: bool, now_ms: u64) -> (Monitor, bool) {
    if alive {
        match m.healthy_since_ms {
            None => (Monitor { healthy_since_ms: Some(now_ms), ..m }, false),
            Some(t) => if now_ms >= t && now_ms - t >= RESTART_QUOTA_REFILL_AFTER_MS && m.restarts > 0 {
                (Monitor { restarts: 0, ..m }, true)
            } else {
                (m, false)
            },
        }
    } else {
        (Monitor { healthy_since_ms: None, ..m }, false)
    }
}

/// One probe of an active service. Misses while `Starting` with a live child
/// are expected (a cold start takes longer than the miss limit); a `Starting`
/// service whose child is gone is given up at once.
pub open spec fn active_step_spec(m: Monitor, alive: bool, child_alive: bool) -> (Monitor, MonitorAction) {
    if alive {
        if m.lost > 0 {
            (Monitor { lost: 0, ..m }, MonitorAction::Reconnect)
        } else {
            (m, MonitorAction::Idle)
        }
    } else {
        let starting = m.state == ServiceState::Starting;
        if starting && child_alive {
            (Monitor { lost: 0, ..m }, MonitorAction::Idle)
        } else {
            let lost = m.lost + 1;
            let give_up = lost >= LOST_LIMIT || (starting && !child_alive);
            if !give_up {
                (
                    Monitor { lost: lost as u32, ..m },
                    if lost == 1 && !starting {
                        MonitorAction::WarnUnresponsive
                    } else {
                        MonitorAction::Idle
                    },
                )
            } else if m.owns_process && !child_alive && m.restarts < MAX_AUTO_RESTART {
                (
                    Monitor {
                        lost: 0,
                        restarts: (m.restarts + 1) as u32,
                        state: ServiceState::Stopped,
                        owns_process: false,
                        ..m
                    },
                    MonitorAction::Restart,
                )
            } else {
                (
                    Monitor { lost: 0, state: ServiceState::Error, owns_process: false, ..m },
                    MonitorAction::GiveUp,
                )
            }
        }
    }
}

/// One monitor step: disabled, it only forgets its misses; enabled, it
/// refills the quota and, for an active service, counts misses and heals.
pub open spec fn monitor_step_spec(m: Monitor, enabled: bool, alive: bool, child_alive: bool, now_ms: u64) -> MonitorStep {
    if !enabled {
        MonitorStep { next: Monitor { lost: 0, ..m }, action: MonitorAction::Idle, refilled: false }
    } else {
        let (m1, refilled) = refill_spec(m, alive, now_ms);
        if is_active_spec(m1.state) {
            let (m2, action) = active_step_spec(m1, alive, child_alive);
            MonitorStep { next: m2, action, refilled }
        } else {
            MonitorStep { next: m1, action: MonitorAction::Idle, refilled }
        }
    }
}

/// The monitor's state is sound: misses stay under the limit, restarts within the quota.
pub open spec fn monitor_wf(m: Monitor) -> bool {
    m.lost < LOST_LIMIT && m.restarts <= MAX_AUTO_RESTART
}

/// One monitor step (see [`monitor_step_spec`]).
pub fn monitor_step(m: Monitor, enabled: bool, alive: bool, child_alive: bool, now_ms: u64) -> (r: MonitorStep)
    requires
        monitor_wf(m),
    ensures
        r == monitor_step_spec(m, enabled, alive, child_alive, now_ms),
{
    if !enabled {
        return MonitorStep { next: Monitor { lost: 0, ..m }, action: MonitorAction::Idle, refilled: false };
    }
    let mut cur = m;
    let mut refilled = false;
    if alive {
        match cur.healthy_since_ms {
            None => {
                cur.healthy_since_ms = Some(now_ms);
            },
            Some(t) => {
                if now_ms >= t && now_ms - t >= RESTART_QUOTA_REFILL_AFTER_MS && cur.restarts > 0 {
                    cur.restarts = 0;
                    refilled = true;
                }
            },
        }
    } else {
        cur.healthy_since_ms = None;
    }
    assert((cur, refilled) == refill_spec(m, alive, now_ms));
    if !cur.state.is_active() {
        return MonitorStep { next: cur, action: MonitorAction::Idle, refilled };
    }
    if alive {
        if cur.lost > 0 {
            return MonitorStep { next: Monitor { lost: 0, ..cur }, action: MonitorAction::Reconnect, refilled };
        }
        return MonitorStep { next: cur, action: MonitorAction::Idle, refilled };
    }
    let starting = match cur.state {
        ServiceState::Starting => true,
        _ => false,
    };
    if starting && child_alive {
        return MonitorStep { next: Monitor { lost: 0, ..cur }, action: MonitorAction::Idle, refilled };
    }
    let lost = cur.lost + 1;
    let give_up = lost >= LOST_LIMIT || (starting && !child_alive);
    if !give_up {
        let action = if lost == 1 && !starting {
            MonitorAction::WarnUnresponsive
        } else {
            MonitorAction::Idle
        };
        return MonitorStep { next: Monitor { lost, ..cur }, action, refilled };
    }
    if cur.owns_process && !child_alive && cur.restarts < MAX_AUTO_RESTART {
        return MonitorStep {
            next: Monitor {
                lost: 0,
                restarts: cur.restarts + 1,
                state: ServiceState::Stopped,
                owns_process: false,
                ..cur
            },
            action: MonitorAction::Restart,
            refilled,
        };
    }
    MonitorStep {
        next: Monitor { lost: 0, state: ServiceState::Error, owns_process: false, ..cur },
        action: MonitorAction::GiveUp,
        refilled,
    }
}

/// Every monitor step keeps the monitor sound: misses never reach the limit
/// unanswered, and the restarts never exceed the quota.
pub proof fn lemma_monitor_keeps_wf(m: Monitor, enabled: bool, alive: bool, child_alive: bool, now_ms: u64)
    requires
        monitor_wf(m),
    ensures
        monitor_wf(monitor_step_spec(m, enabled, alive, child_alive, now_ms).next),
{
}

/// A service being stopped is never restarted nor given up by the monitor,
/// and stays `Stopping`.
pub proof fn lemma_stopping_is_left_alone(m: Monitor, enabled: bool, alive: bool, child_alive: bool, now_ms: u64)
    requires
        m.state == ServiceState::Stopping,
    ensures
        monitor_step_spec(m, enabled, alive, child_alive, now_ms).action == MonitorAction::Idle,
        monitor_step_spec(m, enabled, alive, child_alive, now_ms).next.state == ServiceState::Stopping,
{
}

/// The monitor restarts only an own service whose process is gone, and only
/// while the quota lasts.
pub proof fn lemma_restart_only_own_dead_child(m: Monitor, enabled: bool, alive: bool, child_alive: bool, now_ms: u64)
    ensures
        monitor_step_spec(m, enabled, alive, child_alive, now_ms).action == MonitorAction::Restart
            ==> m.owns_process && !child_alive && !alive
            && monitor_step_spec(m, enabled, alive, child_alive, now_ms).next.restarts <= MAX_AUTO_RESTART
            && monitor_step_spec(m, enabled, alive, child_alive, now_ms).next.state == ServiceState::Stopped,
{
}

/// A starting service whose process lives is never counted as lost.
pub proof fn lemma_cold_start_is_patient(m: Monitor, alive: bool, now_ms: u64)
    requires
        m.state == ServiceState::Starting,
    ensures
        monitor_step_spec(m, true, alive, true, now_ms).action != MonitorAction::GiveUp,
        monitor_step_spec(m, true, alive, true, now_ms).action != MonitorAction::Restart,
        !alive ==> monitor_step_spec(m, true, alive, true, now_ms).next.lost == 0,
{
}

/// A running or adopted service that misses `LOST_LIMIT` probes in a row is
/// restarted (own, dead, quota left) or given up.
pub proof fn lemma_lost_after_limit(m: Monitor, child_alive: bool, now_ms: u64)
    requires
        m.state == ServiceState::Running || m.state == ServiceState::External,
        m.lost == LOST_LIMIT - 1,
    ensures
        monitor_step_spec(m, true, false, child_alive, now_ms).action == MonitorAction::Restart
            || monitor_step_spec(m, true, false, child_alive, now_ms).action == MonitorAction::GiveUp,
{
}

/// What the monitor does when a service appears on the port of a failed one.
#[derive(Debug, Clone, Copy, PartialEq, Eq, Structural)]
pub enum Reacquire {
    /// No occupant found, or it is this launcher.
    Skip,
    /// The occupant is not dsh: leave it alone.
    IgnoreForeign { pid: u32 },
    /// The occupant is dsh: adopt it (the state is now `External`).
    Adopt { pid: u32 },
}

pub open spec fn reacquire_spec(m: Monitor, occupant: Option<u32>, self_pid: u32, is_dsh: bool) -> (Monitor, Reacquire) {
    match occupant {
        None => (m, Reacquire::Skip),
        Some(pid) => if pid == self_pid {
            (m, Reacquire::Skip)
        } else if !is_dsh {
            (m, Reacquire::IgnoreForeign { pid })
        } else {
            (
                Monitor { state: ServiceState::External, owns_process: false, lost: 0, restarts: 0, ..m },
                Reacquire::Adopt { pid },
            )
        },
    }
}

/// A failed service's port answers again: adopt the occupant when it is dsh,
/// never this launcher, never a foreign program.
pub fn reacquire(m: Monitor, occupant: Option<u32>, self_pid: u32, is_dsh: bool) -> (r: (Monitor, Reacquire))
    ensures
        r == reacquire_spec(m, occupant, self_pid, is_dsh),
{
    match occupant {
        None => (m, Reacquire::Skip),
        Some(pid) => {
            if pid == self_pid {
                (m, Reacquire::Skip)
            } else if !is_dsh {
                (m, Reacquire::IgnoreForeign { pid })
            } else {
                (
                    Monitor { state: ServiceState::External, owns_process: false, lost: 0, restarts: 0, ..m },
                    Reacquire::Adopt { pid },
                )
            }
        },
    }
}

// ---------------------------------------------------------------------------
// Start
// ---------------------------------------------------------------------------

/// The state of a service this launcher already runs: `Running` when it spawned
/// it, `External` when it adopted it (so the monitor never "restarts" it).
pub fn running_state(owns_process: bool) -> (r: ServiceState)
    ensures
        r == if owns_process {
            ServiceState::Running
        } else {
            ServiceState::External
        },
{
    if owns_process {
        ServiceState::Running
    } else {
        ServiceState::External
    }
}

#[derive(Debug, Clone, Copy, PartialEq, Eq, Structural)]
pub enum LogLevel {
    Info,
    Warn,
    Error,
}

/// A line for the log.
#[derive(Debug, Clone, PartialEq)]
pub struct LogLine {
    pub level: LogLevel,
    pub text: String,
}

/// What start-up does with the record's reconciliation.
#[derive(Debug, Clone, Copy, PartialEq, Eq, Structural)]
pub enum ReconcileStep {
    /// Adopt the recorded service (do not restart; sessions survive).
    Adopt { pid: u32 },
    /// Go on to the port check, after ending a stale orphan when asked to.
    Proceed { kill_orphan: Option<u32> },
}

pub open spec fn adopt_record_text(pid: u32, port: u16) -> Seq<char> {
    "发现上次启动留下的 dsh 服务仍然可用（PID "@ + dec(pid as nat) + "，端口 "@ + dec(port as nat)
        + "），已直接接管（会话未中断）。"@
}

pub open spec fn port_mismatch_text(pid: u32, rec_port: u16, port: u16) -> Seq<char> {
    "服务簿记记录的是端口 "@ + dec(rec_port as nat) + "（PID "@ + dec(pid as nat) + "），与当前配置的端口 "@
        + dec(port as nat) + " 不一致；为避免界面/监测指向错误的端口，本次**不接管**该实例，将按配置端口 "@
        + dec(port as nat) + " 重新处理。"@
}

pub open spec fn orphan_text(pid: u32, port: u16) -> Seq<char> {
    "发现上次遗留的 dsh 进程（PID "@ + dec(pid as nat) + "，端口 "@ + dec(port as nat) + "）已不在监听端口。"@
}

pub open spec fn orphan_killed_text(pid: u32) -> Seq<char> {
    "已结束该残留进程（PID "@ + dec(pid as nat) + "）并清理簿记。"@
}

pub open spec fn stale_text(reason: Seq<char>) -> Seq<char> {
    "上次的服务簿记已失效（"@ + reason + "），将按需重新启动。"@
}

pub open spec fn log_view(l: LogLine) -> (LogLevel, Seq<char>) {
    (l.level, l.text@)
}

/// The decision on the record, and its log lines. A record for another port
/// is never adopted (the interface and the monitor would watch the wrong port).
pub open spec fn reconcile_step_spec(rec: Reconciliation, port: u16, stop_stale_orphan: bool) -> (ReconcileStep, Seq<(LogLevel, Seq<char>)>) {
    match rec {
        Reconciliation::Adopt { pid, port: rp } => if rp == port {
            (ReconcileStep::Adopt { pid }, seq![(LogLevel::Info, adopt_record_text(pid, rp))])
        } else {
            (ReconcileStep::Proceed { kill_orphan: None }, seq![(LogLevel::Warn, port_mismatch_text(pid, rp, port))])
        },
        Reconciliation::Orphan { pid, port: rp } => if stop_stale_orphan {
            (
                ReconcileStep::Proceed { kill_orphan: Some(pid) },
                seq![(LogLevel::Warn, orphan_text(pid, rp)), (LogLevel::Info, orphan_killed_text(pid))],
            )
        } else {
            (ReconcileStep::Proceed { kill_orphan: None }, seq![(LogLevel::Warn, orphan_text(pid, rp))])
        },
        Reconciliation::Stale { reason } => (
            ReconcileStep::Proceed { kill_orphan: None },
            seq![(LogLevel::Info, stale_text(reason@))],
        ),
        Reconciliation::NoRecord => (ReconcileStep::Proceed { kill_orphan: None }, Seq::empty()),
    }
}

fn line(level: LogLevel, v: Vec<char>) -> (r: LogLine)
    ensures
        r.level == level,
        r.text@ == v@,
{
    LogLine { level, text: string_from_chars(v.as_slice()) }
}

pub fn reconcile_step(rec: &Reconciliation, port: u16, stop_stale_orphan: bool) -> (r: (ReconcileStep, Vec<LogLine>))
    ensures
        (r.0, r.1@.map_values(|l: LogLine| log_view(l))) == reconcile_step_spec(*rec, port, stop_stale_orphan),
{
    let mut logs: Vec<LogLine> = Vec::new();
    let step = match rec {
        Reconciliation::Adopt { pid, port: rp } => {
            let mut v: Vec<char> = Vec::new();
            if *rp == port {
                push_str(&mut v, "发现上次启动留下的 dsh 服务仍然可用（PID ");
                push_u64(&mut v, *pid as u64);
                push_str(&mut v, "，端口 ");
                push_u64(&mut v, *rp as u64);
                push_str(&mut v, "），已直接接管（会话未中断）。");
                assert(v@ =~= adopt_record_text(*pid, *rp));
                logs.push(line(LogLevel::Info, v));
                ReconcileStep::Adopt { pid: *pid }
            } else {
                push_str(&mut v, "服务簿记记录的是端口 ");
                push_u64(&mut v, *rp as u64);
                push_str(&mut v, "（PID ");
                push_u64(&mut v, *pid as u64);
                push_str(&mut v, "），与当前配置的端口 ");
                push_u64(&mut v, port as u64);
                push_str(&mut v, " 不一致；为避免界面/监测指向错误的端口，本次**不接管**该实例，将按配置端口 ");
                push_u64(&mut v, port as u64);
                push_str(&mut v, " 重新处理。");
                assert(v@ =~= port_mismatch_text(*pid, *rp, port));
                logs.push(line(LogLevel::Warn, v));
                ReconcileStep::Proceed { kill_orphan: None }
            }
        },
        Reconciliation::Orphan { pid, port: rp } => {
            let mut v: Vec<char> = Vec::new();
            push_str(&mut v, "发现上次遗留的 dsh 进程（PID ");
            push_u64(&mut v, *pid as u64);
            push_str(&mut v, "，端口 ");
            push_u64(&mut v, *rp as u64);
            push_str(&mut v, "）已不在监听端口。");
            assert(v@ =~= orphan_text(*pid, *rp));
            logs.push(line(LogLevel::Warn, v));
            if stop_stale_orphan {
                let mut w: Vec<char> = Vec::new();
                push_str(&mut w, "已结束该残留进程（PID ");
                push_u64(&mut w, *pid as u64);
                push_str(&mut w, "）并清理簿记。");
                assert(w@ =~= orphan_killed_text(*pid));
                logs.push(line(LogLevel::Info, w));
                ReconcileStep::Proceed { kill_orphan: Some(*pid) }
            } else {
                ReconcileStep::Proceed { kill_orphan: None }
            }
        },
        Reconciliation::Stale { reason } => {
            let mut v: Vec<char> = Vec::new();
            push_str(&mut v, "上次的服务簿记已失效（");
            push_str(&mut v, reason.as_str());
            push_str(&mut v, "），将按需重新启动。");
            assert(v@ =~= stale_text(reason@));
            logs.push(line(LogLevel::Info, v));
            ReconcileStep::Proceed { kill_orphan: None }
        },
        Reconciliation::NoRecord => ReconcileStep::Proceed { kill_orphan: None },
    };
    assert(logs@.map_values(|l: LogLine| log_view(l)) =~= reconcile_step_spec(*rec, port, stop_stale_orphan).1);
    (step, logs)
}

/// What start-up does about a service found on the port.
#[derive(Debug, Clone, PartialEq)]
pub enum OccupantStep {
    /// The occupant's pid cannot be found: give up (state `Error`, start fails).
    Unknown(String),
    /// The occupant is this launcher: state `Error`, nothing adopted.
    Ourselves,
    /// The occupant is not confirmed to be dsh: never adopted nor ended (state `Error`, start fails).
    Foreign(String),
    /// The occupant is dsh: adopt it (state `External`).
    Adopt { pid: u32, message: String },
}

pub open spec fn unknown_occupant_text(port: u16) -> Seq<char> {
    "端口 "@ + dec(port as nat) + " 被占用但无法确定占用者 PID，已放弃接管。"@
}

pub open spec fn foreign_occupant_text(port: u16, pid: u32, identity: DshIdentity) -> Seq<char> {
    let reason = if identity is Unknown {
        "无法读取该进程信息（可能正在退出或权限受限）"@
    } else {
        "经校验不是 dsh 程序"@
    };
    let img = if steps_of(identity).image_path@.len() == 0 {
        "<无法读取>"@
    } else {
        steps_of(identity).image_path@
    };
    "端口 "@ + dec(port as nat) + " 被 PID "@ + dec(pid as nat) + " 占用，但"@ + reason + "（映像 "@ + img + "；"@
        + identity_summary(identity) + "）。为避免误杀无关程序，启动器不会接管也不会结束它；请稍后重试或更换端口。"@
}

pub open spec fn adopt_occupant_text(port: u16, pid: u32) -> Seq<char> {
    "端口 "@ + dec(port as nat) + " 上已有 dsh 服务在运行（PID "@ + dec(pid as nat) + "），直接接管。"@
}

/// A service on the configured port is adopted only when it is confirmed to be
/// dsh; an undecided identity is refused as firmly as a foreign one.
pub fn occupant_step(port: u16, occupant: Option<u32>, self_pid: u32, identity: &DshIdentity) -> (r: OccupantStep)
    ensures
        match occupant {
            None => r matches OccupantStep::Unknown(m) && m@ == unknown_occupant_text(port),
            Some(pid) => if pid == self_pid {
                r == OccupantStep::Ourselves
            } else if !(*identity is IsDsh) {
                r matches OccupantStep::Foreign(m) && m@ == foreign_occupant_text(port, pid, *identity)
            } else {
                r matches OccupantStep::Adopt { pid: p, message } && p == pid && message@ == adopt_occupant_text(port, pid)
            },
        },
{
    let pid = match occupant {
        None => {
            let mut v: Vec<char> = Vec::new();
            push_str(&mut v, "端口 ");
            push_u64(&mut v, port as u64);
            push_str(&mut v, " 被占用但无法确定占用者 PID，已放弃接管。");
            return OccupantStep::Unknown(string_from_chars(v.as_slice()));
        },
        Some(p) => p,
    };
    if pid == self_pid {
        return OccupantStep::Ourselves;
    }
    if !identity.is_dsh() {
        let mut v: Vec<char> = Vec::new();
        push_str(&mut v, "端口 ");
        push_u64(&mut v, port as u64);
        push_str(&mut v, " 被 PID ");
        push_u64(&mut v, pid as u64);
        push_str(&mut v, " 占用，但");
        if identity.is_unknown() {
            push_str(&mut v, "无法读取该进程信息（可能正在退出或权限受限）");
        } else {
            push_str(&mut v, "经校验不是 dsh 程序");
        }
        push_str(&mut v, "（映像 ");
        let steps = identity.steps();
        let img = crate::text::chars_of(steps.image_path.as_str());
        if img.len() == 0 {
            push_str(&mut v, "<无法读取>");
        } else {
            push_str(&mut v, steps.image_path.as_str());
        }
        push_str(&mut v, "；");
        let summary = identity.summary();
        push_str(&mut v, summary.as_str());
        push_str(&mut v, "）。为避免误杀无关程序，启动器不会接管也不会结束它；请稍后重试或更换端口。");
        assert(v@ =~= foreign_occupant_text(port, pid, *identity));
        return OccupantStep::Foreign(string_from_chars(v.as_slice()));
    }
    let mut v: Vec<char> = Vec::new();
    push_str(&mut v, "端口 ");
    push_u64(&mut v, port as u64);
    push_str(&mut v, " 上已有 dsh 服务在运行（PID ");
    push_u64(&mut v, pid as u64);
    push_str(&mut v, "），直接接管。");
    assert(v@ =~= adopt_occupant_text(port, pid));
    OccupantStep::Adopt { pid, message: string_from_chars(v.as_slice()) }
}

/// What the spawn attempt gave.
#[derive(Debug, Clone, PartialEq)]
pub enum SpawnResult {
    /// Another path started the service meanwhile.
    AlreadyRunning,
    Spawned(u32),
    Failed(String),
}

/// What follows the spawn attempt.
#[derive(Debug, Clone, PartialEq)]
pub enum AfterSpawn {
    /// Nothing more to do (the other path owns the start).
    AlreadyRunning,
    /// The start failed (state `Error`; the message to log and return).
    Failed(String),
    /// A stop arrived during the spawn: end the new process at once (state `Stopped`).
    Cancelled { pid: u32, message: String },
    /// Started: state `Starting`, the process is ours; wait for readiness.
    Started { pid: u32, message: String },
}

pub open spec fn started_text(pid: u32, lifecycle_label: Seq<char>) -> Seq<char> {
    "dsh web 已启动（PID "@ + dec(pid as nat) + "，生命周期 "@ + lifecycle_label + "）"@
}

pub open spec fn cancelled_text(pid: u32) -> Seq<char> {
    "启动期间收到停止请求：已立即回收刚启动的进程（PID "@ + dec(pid as nat) + "）。"@
}

/// After the spawn: a stop that arrived meanwhile wins over the start.
pub fn after_spawn(result: SpawnResult, stop_requested: bool, lifecycle_label: &str) -> (r: AfterSpawn)
    ensures
        match result {
            SpawnResult::AlreadyRunning => r == AfterSpawn::AlreadyRunning,
            SpawnResult::Failed(e) => r matches AfterSpawn::Failed(m) && m@ == "启动失败："@ + e@,
            SpawnResult::Spawned(pid) => if stop_requested {
                r matches AfterSpawn::Cancelled { pid: p, message } && p == pid && message@ == cancelled_text(pid)
            } else {
                r matches AfterSpawn::Started { pid: p, message } && p == pid && message@ == started_text(
                    pid,
                    lifecycle_label@,
                )
            },
        },
{
    match result {
        SpawnResult::AlreadyRunning => AfterSpawn::AlreadyRunning,
        SpawnResult::Failed(e) => {
            let mut v: Vec<char> = Vec::new();
            push_str(&mut v, "启动失败：");
            push_str(&mut v, e.as_str());
            AfterSpawn::Failed(string_from_chars(v.as_slice()))
        },
        SpawnResult::Spawned(pid) => {
            let mut v: Vec<char> = Vec::new();
            if stop_requested {
                push_str(&mut v, "启动期间收到停止请求：已立即回收刚启动的进程（PID ");
                push_u64(&mut v, pid as u64);
                push_str(&mut v, "）。");
                assert(v@ =~= cancelled_text(pid));
                AfterSpawn::Cancelled { pid, message: string_from_chars(v.as_slice()) }
            } else {
                push_str(&mut v, "dsh web 已启动（PID ");
                push_u64(&mut v, pid as u64);
                push_str(&mut v, "，生命周期 ");
                push_str(&mut v, lifecycle_label);
                push_str(&mut v, "）");
                assert(v@ =~= started_text(pid, lifecycle_label@));
                AfterSpawn::Started { pid, message: string_from_chars(v.as_slice()) }
            }
        },
    }
}

/// How waiting for readiness ended.
#[derive(Debug, Clone, Copy, PartialEq, Eq, Structural)]
pub enum ReadyOutcome {
    Ready,
    Timeout,
    GenerationChanged,
}

/// What follows the wait for readiness.
#[derive(Debug, Clone, Copy, PartialEq, Eq, Structural)]
pub enum ReadyStep {
    /// Stale or expected (cancelled, restarted, or a stop was asked): do nothing.
    Ignore,
    /// Ready: state `Running`, announce readiness (with the token only when known).
    BecomeRunning,
    /// Not ready in time: state `Error`, clear the record, stop the process.
    FailAndStop,
}

/// The wait's outcome, unless the generation moved on (then it is void), and a
/// timeout after an asked-for stop is expected, not an error.
pub fn ready_step(outcome: ReadyOutcome, current_generation: u64, my_generation: u64, stop_requested: bool) -> (r: ReadyStep)
    ensures
        r == if current_generation != my_generation {
            ReadyStep::Ignore
        } else {
            match outcome {
                ReadyOutcome::Ready => ReadyStep::BecomeRunning,
                ReadyOutcome::Timeout => if stop_requested {
                    ReadyStep::Ignore
                } else {
                    ReadyStep::FailAndStop
                },
                ReadyOutcome::GenerationChanged => ReadyStep::Ignore,
            }
        },
{
    if current_generation != my_generation {
        return ReadyStep::Ignore;
    }
    match outcome {
        ReadyOutcome::Ready => ReadyStep::BecomeRunning,
        ReadyOutcome::Timeout => if stop_requested {
            ReadyStep::Ignore
        } else {
            ReadyStep::FailAndStop
        },
        ReadyOutcome::GenerationChanged => ReadyStep::Ignore,
    }
}

/// Pids joined by `, `.
pub open spec fn pids_text(pids: Seq<u32>) -> Seq<char>
    decreases pids.len(),
{
    if pids.len() == 0 {
        Seq::empty()
    } else if pids.len() == 1 {
        dec(pids[0] as nat)
    } else {
        pids_text(pids.drop_last()) + ", "@ + dec(pids.last() as nat)
    }
}

pub open spec fn stopped_text(killed: Seq<u32>) -> Seq<char> {
    "服务已停止"@ + if killed.len() == 0 {
        Seq::empty()
    } else {
        "（已结束 PID "@ + pids_text(killed) + "）"@
    } + "。"@
}

/// Appends the pids separated by `, `.
pub fn push_pids(v: &mut Vec<char>, pids: &[u32])
    ensures
        final(v)@ == old(v)@ + pids_text(pids@),
{
    let ghost start = v@;
    let mut i: usize = 0;
    assert(pids_text(pids@.subrange(0, 0)) =~= Seq::<char>::empty());
    while i < pids.len()
        invariant
            i <= pids.len(),
            v@ == start + pids_text(pids@.subrange(0, i as int)),
        decreases pids.len() - i,
    {
        let ghost pre = pids@.subrange(0, i as int);
        let ghost nxt = pids@.subrange(0, i + 1);
        assert(nxt.drop_last() =~= pre);
        if i > 0 {
            push_str(v, ", ");
        }
        push_u64(v, pids[i] as u64);
        proof {
            if i == 0 {
                assert(pids_text(pre) =~= Seq::<char>::empty());
                assert(nxt.len() == 1);
            }
            assert(v@ =~= start + pids_text(nxt));
        }
        i = i + 1;
    }
    assert(pids@.subrange(0, pids@.len() as int) =~= pids@);
}

/// The log line after a stop, naming the processes ended.
pub fn stopped_message(killed: &[u32]) -> (r: String)
    ensures
        r@ == stopped_text(killed@),
{
    let mut v: Vec<char> = Vec::new();
    push_str(&mut v, "服务已停止");
    if killed.len() > 0 {
        push_str(&mut v, "（已结束 PID ");
        push_pids(&mut v, killed);
        push_str(&mut v, "）");
    }
    push_str(&mut v, "。");
    assert(v@ =~= stopped_text(killed@));
    string_from_chars(v.as_slice())
}

/// The service is stopped on exit only when it is tied to the launcher.
pub fn stops_service_on_exit(lifecycle: crate::config::ServiceLifecycle) -> (r: bool)
    ensures
        r == (lifecycle == crate::config::ServiceLifecycle::Tied),
{
    match lifecycle {
        crate::config::ServiceLifecycle::Tied => true,
        crate::config::ServiceLifecycle::Independent => false,
    }
}

} // verus!
