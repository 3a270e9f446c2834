//! Decisions taken by the launcher's event loop: how to recover when the
//! embedded page asks for authentication, when a navigation address is
//! settled, what saving or resetting the settings does to the service, how the
//! launcher leaves, and the text of the archive-cleanup confirmation.
//!
//! The loop itself (windows, threads, dialogs, the service handle) performs
//! what these functions decide.
use vstd::prelude::*;

use crate::config::{ServiceLifecycle, Settings};
use crate::harness::AuthState;
use crate::maintenance::{summary_text, ActiveSessions};
use crate::text::{
    chars_eq, chars_of, contains, contains_str, dec, join_lines, parse_uint, parse_uint_chars,
    push_joined, push_str, push_u64, slice_to_vec, string_from_chars, strings_view, trim,
    trim_bounds,
};

verus! {

/// How to recover when the embedded page shows the authentication wall.
#[derive(Debug, Clone, Copy, PartialEq, Eq, Structural)]
pub enum AuthRecovery {
    /// Nothing is running: restart the service without asking.
    AutoRestart,
    /// Something may be running (or nobody knows): ask first.
    AskUser,
}

/// Restarting without asking is allowed only when the probe saw no activity at
/// all; a failed probe counts as activity.
pub fn auth_recovery_action(activity: Option<&ActiveSessions>) -> (r: AuthRecovery)
    ensures
        (r == AuthRecovery::AutoRestart) <==> (activity is Some && activity->0.runner_processes == 0
            && activity->0.recently_written == 0),
{
    match activity {
        Some(a) => {
            if !a.any_activity() {
                AuthRecovery::AutoRestart
            } else {
                AuthRecovery::AskUser
            }
        },
        None => AuthRecovery::AskUser,
    }
}

/// Whether an address carries dsh's one-time launch token.
pub fn contains_token(url: &str) -> (r: bool)
    ensures
        r == contains(url@, "token="@),
{
    contains_str(url, "token=")
}

/// Ticks (of 100 ms) to wait for the tokenised address before falling back.
pub const AUTH_URL_WAIT_TICKS: u32 = 50;

/// What [`settle_auth_url`] decided.
pub struct AuthUrlSettle {
    /// The address to navigate to now; `None` to wait another tick.
    pub url: Option<String>,
    /// The pending address afterwards.
    pub pending: Option<String>,
    /// The remaining wait budget afterwards.
    pub ticks: u32,
    /// The budget ran out and the plain address is used (worth a warning).
    pub gave_up: bool,
}

/// Decides whether navigation may happen now and to which address.
///
/// A pending address with a token goes at once. A service of ours gives its
/// captured tokenised address once it has one; an adopted service never has
/// one, so its plain address goes at once. Otherwise the budget is spent one
/// tick at a time, and when it is gone the plain address goes.
pub fn settle_auth_url(
    pending: Option<String>,
    owns_service: bool,
    captured: Option<String>,
    ready_url: String,
    ticks: u32,
) -> (r: AuthUrlSettle)
    ensures
        ({
            let pending_has_token = pending is Some && contains(pending->0@, "token="@);
            if pending_has_token {
                &&& r.url is Some && r.url->0@ == pending->0@
                &&& r.pending == pending
                &&& r.ticks == AUTH_URL_WAIT_TICKS
                &&& !r.gave_up
            } else if owns_service && captured is Some {
                &&& r.url is Some && r.url->0@ == captured->0@
                &&& r.pending is Some && r.pending->0@ == captured->0@
                &&& r.ticks == AUTH_URL_WAIT_TICKS
                &&& !r.gave_up
            } else if !owns_service {
                &&& r.url is Some && r.url->0@ == ready_url@
                &&& r.pending == pending
                &&& r.ticks == AUTH_URL_WAIT_TICKS
                &&& !r.gave_up
            } else if ticks == 0 {
                &&& r.url is Some && r.url->0@ == ready_url@
                &&& r.pending == pending
                &&& r.ticks == 0
                &&& r.gave_up
            } else {
                &&& r.url is None
                &&& r.pending == pending
                &&& r.ticks == ticks - 1
                &&& !r.gave_up
            }
        }),
{
    let has_token = match &pending {
        Some(u) => contains_token(u.as_str()),
        None => false,
    };
    if has_token {
        let u = match &pending {
            Some(u) => u.clone(),
            None => String::new(),
        };
        return AuthUrlSettle { url: Some(u), pending, ticks: AUTH_URL_WAIT_TICKS, gave_up: false };
    }
    if owns_service {
        match captured {
            Some(u) => {
                let again = u.clone();
                return AuthUrlSettle {
                    url: Some(u),
                    pending: Some(again),
                    ticks: AUTH_URL_WAIT_TICKS,
                    gave_up: false,
                };
            },
            None => {},
        }
    } else {
        return AuthUrlSettle {
            url: Some(ready_url),
            pending,
            ticks: AUTH_URL_WAIT_TICKS,
            gave_up: false,
        };
    }
    if ticks == 0 {
        return AuthUrlSettle { url: Some(ready_url), pending, ticks: 0, gave_up: true };
    }
    AuthUrlSettle { url: None, pending, ticks: ticks - 1, gave_up: false }
}

/// Milliseconds to let the page render before checking it.
pub const AUTH_CHECK_DELAY_MS: u64 = 1500;

/// Checks per navigation before giving up.
pub const AUTH_CHECK_MAX_ATTEMPTS: u32 = 6;

/// Milliseconds after which an unanswered check no longer blocks the next one.
pub const AUTH_CHECK_CALLBACK_TIMEOUT_MS: u64 = 5000;

/// The bookkeeping of the authentication check of the current navigation.
#[derive(Debug, Clone, Copy, PartialEq, Eq, Structural)]
pub struct AuthCheck {
    /// When the next check is due (ms on the loop's clock); `None` when none is.
    pub due_at: Option<u64>,
    /// A check was submitted and its answer has not come.
    pub pending: bool,
    /// Checks submitted for this navigation.
    pub attempts: u32,
    /// "Authentication is fine" has been logged for this navigation.
    pub ok_logged: bool,
    /// Recovery has been started for this navigation.
    pub recovery_offered: bool,
}

/// What the loop does after one step of the check.
#[derive(Debug, Clone, Copy, PartialEq, Eq, Structural)]
pub enum AuthCheckAction {
    /// Nothing this tick.
    Idle,
    /// Log once that the page is authenticated.
    LogOk,
    /// Start the recovery (probe for activity, then restart or ask).
    Recover,
    /// Submit a check script to the page.
    Submit,
}

/// Whether the embedded window exists and is shown.
#[derive(Debug, Clone, Copy, PartialEq, Eq, Structural)]
pub enum HarnessPresence {
    Absent,
    Hidden,
    Visible,
}

impl AuthCheck {
    /// Validity: the attempts never exceed the limit.
    pub open spec fn wf(self) -> bool {
        self.attempts <= AUTH_CHECK_MAX_ATTEMPTS
    }

    /// A fresh check, due `AUTH_CHECK_DELAY_MS` after `now`.
    pub fn schedule(now: u64) -> (r: AuthCheck)
        requires
            now <= u64::MAX - AUTH_CHECK_DELAY_MS,
        ensures
            r == (AuthCheck {
                due_at: Some((now + AUTH_CHECK_DELAY_MS) as u64),
                pending: false,
                attempts: 0,
                ok_logged: false,
                recovery_offered: false,
            }),
            r.wf(),
    {
        AuthCheck {
            due_at: Some(now + AUTH_CHECK_DELAY_MS),
            pending: false,
            attempts: 0,
            ok_logged: false,
            recovery_offered: false,
        }
    }
}

/// One tick of the check, given the answer that arrived (if any), the time and
/// the window.
pub open spec fn auth_step_spec(
    s: AuthCheck,
    answer: Option<AuthState>,
    now: u64,
    harness: HarnessPresence,
) -> (AuthCheck, AuthCheckAction) {
    let s1 = if answer is Some {
        AuthCheck { pending: false, ..s }
    } else {
        s
    };
    if answer == Some(AuthState::Authenticated) {
        if !s1.ok_logged {
            (AuthCheck { ok_logged: true, due_at: None, ..s1 }, AuthCheckAction::LogOk)
        } else {
            (AuthCheck { due_at: None, ..s1 }, AuthCheckAction::Idle)
        }
    } else if answer == Some(AuthState::Required) {
        if !s1.recovery_offered {
            (AuthCheck { due_at: None, recovery_offered: true, ..s1 }, AuthCheckAction::Recover)
        } else {
            (AuthCheck { due_at: None, ..s1 }, AuthCheckAction::Idle)
        }
    } else {
        let timed_out = s1.due_at is Some && now > s1.due_at->0 + AUTH_CHECK_CALLBACK_TIMEOUT_MS;
        if s1.pending && !timed_out {
            (s1, AuthCheckAction::Idle)
        } else {
            let s2 = AuthCheck { pending: false, ..s1 };
            if s2.recovery_offered || s2.attempts >= AUTH_CHECK_MAX_ATTEMPTS {
                (s2, AuthCheckAction::Idle)
            } else if s2.due_at is None {
                (s2, AuthCheckAction::Idle)
            } else if now < s2.due_at->0 {
                (s2, AuthCheckAction::Idle)
            } else if harness == HarnessPresence::Absent {
                (AuthCheck { due_at: None, ..s2 }, AuthCheckAction::Idle)
            } else if harness == HarnessPresence::Hidden {
                (s2, AuthCheckAction::Idle)
            } else {
                (
                    AuthCheck {
                        attempts: (s2.attempts + 1) as u32,
                        due_at: Some((now + AUTH_CHECK_DELAY_MS) as u64),
                        ..s2
                    },
                    AuthCheckAction::Submit,
                )
            }
        }
    }
}

/// One tick of the authentication check.
pub fn auth_step(s: AuthCheck, answer: Option<AuthState>, now: u64, harness: HarnessPresence) -> (r: (
    AuthCheck,
    AuthCheckAction,
))
    requires
        s.wf(),
        now <= u64::MAX - AUTH_CHECK_DELAY_MS,
        s.due_at is Some ==> s.due_at->0 <= u64::MAX - AUTH_CHECK_CALLBACK_TIMEOUT_MS,
    ensures
        r == auth_step_spec(s, answer, now, harness),
        r.0.wf(),
{
    let mut st = s;
    if answer.is_some() {
        st.pending = false;
    }
    match answer {
        Some(AuthState::Authenticated) => {
            st.due_at = None;
            if !st.ok_logged {
                st.ok_logged = true;
                return (st, AuthCheckAction::LogOk);
            }
            return (st, AuthCheckAction::Idle);
        },
        Some(AuthState::Required) => {
            st.due_at = None;
            if !st.recovery_offered {
                st.recovery_offered = true;
                return (st, AuthCheckAction::Recover);
            }
            return (st, AuthCheckAction::Idle);
        },
        _ => {},
    }
    let timed_out = match st.due_at {
        Some(at) => now > at + AUTH_CHECK_CALLBACK_TIMEOUT_MS,
        None => false,
    };
    if st.pending && !timed_out {
        return (st, AuthCheckAction::Idle);
    }
    st.pending = false;
    if st.recovery_offered || st.attempts >= AUTH_CHECK_MAX_ATTEMPTS {
        return (st, AuthCheckAction::Idle);
    }
    let at = match st.due_at {
        Some(at) => at,
        None => {
            return (st, AuthCheckAction::Idle);
        },
    };
    if now < at {
        return (st, AuthCheckAction::Idle);
    }
    match harness {
        HarnessPresence::Absent => {
            st.due_at = None;
            (st, AuthCheckAction::Idle)
        },
        HarnessPresence::Hidden => (st, AuthCheckAction::Idle),
        HarnessPresence::Visible => {
            st.attempts = st.attempts + 1;
            st.due_at = Some(now + AUTH_CHECK_DELAY_MS);
            (st, AuthCheckAction::Submit)
        },
    }
}

/// Records whether the page accepted the submitted check.
pub fn auth_submitted(s: AuthCheck, accepted: bool) -> (r: AuthCheck)
    ensures
        r == (AuthCheck { pending: accepted, ..s }),
{
    AuthCheck { pending: accepted, ..s }
}

/// Every step keeps the attempts within the limit, and a submission is never
/// made while the limit is reached or after recovery has started.
pub proof fn lemma_auth_check_bounded(
    s: AuthCheck,
    answer: Option<AuthState>,
    now: u64,
    harness: HarnessPresence,
)
    requires
        s.wf(),
        now <= u64::MAX - AUTH_CHECK_DELAY_MS,
    ensures
        auth_step_spec(s, answer, now, harness).0.wf(),
        auth_step_spec(s, answer, now, harness).1 == AuthCheckAction::Submit ==> (s.attempts
            < AUTH_CHECK_MAX_ATTEMPTS && !s.recovery_offered && auth_step_spec(
            s,
            answer,
            now,
            harness,
        ).0.attempts == s.attempts + 1),
{
}

/// Recovery is started at most once per navigation: once offered, no step
/// asks for it again.
pub proof fn lemma_recovery_offered_once(
    s: AuthCheck,
    answer: Option<AuthState>,
    now: u64,
    harness: HarnessPresence,
)
    requires
        s.recovery_offered,
    ensures
        auth_step_spec(s, answer, now, harness).1 != AuthCheckAction::Recover,
        auth_step_spec(s, answer, now, harness).0.recovery_offered,
{
}

/// An "authentication required" verdict always leads to recovery the first
/// time it comes, and never to a further check.
pub proof fn lemma_required_leads_to_recovery(s: AuthCheck, now: u64, harness: HarnessPresence)
    requires
        !s.recovery_offered,
    ensures
        auth_step_spec(s, Some(AuthState::Required), now, harness).1 == AuthCheckAction::Recover,
        auth_step_spec(s, Some(AuthState::Required), now, harness).0.due_at is None,
{
}

// ---------------------------------------------------------------------------
// Saving and resetting the settings
// ---------------------------------------------------------------------------

/// The status line for a port the form could not accept.
pub const BAD_PORT_STATUS: &'static str = "端口必须是 1–65535 之间的数字";

/// The port typed in the form, if it is one the service can use.
pub open spec fn form_port(port: Seq<char>) -> Option<nat> {
    match parse_uint(trim(port), 65535) {
        Some(p) => if p >= 1 {
            Some(p)
        } else {
            None
        },
        None => None,
    }
}

/// The settings a save would produce from `current` and the form's values:
/// port and texts as typed (trimmed), and the two switches kept where the form
/// did not send them.
pub open spec fn candidate_spec(
    current: Settings,
    port: nat,
    work_dir: Seq<char>,
    node_path: Seq<char>,
    tray_on_close: Option<bool>,
    independent_service: Option<bool>,
    r: Settings,
) -> bool {
    &&& r.port == port
    &&& r.work_dir@ == trim(work_dir)
    &&& r.node_path@ == trim(node_path)
    &&& r.tray_on_close == match tray_on_close {
        Some(v) => v,
        None => current.tray_on_close,
    }
    &&& r.service_lifecycle == match independent_service {
        Some(true) => ServiceLifecycle::Independent,
        Some(false) => ServiceLifecycle::Tied,
        None => current.service_lifecycle,
    }
    &&& r.schema_version == current.schema_version
    &&& r.stop_stale_orphan == current.stop_stale_orphan
}

fn trimmed_string(s: &str) -> (r: String)
    ensures
        r@ == trim(s@),
{
    let v = chars_of(s);
    let (a, b) = trim_bounds(v.as_slice(), 0, v.len());
    proof {
        assert(v@.subrange(0, v@.len() as int) =~= v@);
    }
    let t = slice_to_vec(v.as_slice(), a, b);
    string_from_chars(t.as_slice())
}

fn copy_string(s: &String) -> (r: String)
    ensures
        r@ == s@,
{
    let v = chars_of(s.as_str());
    string_from_chars(v.as_slice())
}

/// The settings a "save" from the form would write, or `None` when the port is
/// not a number from 1 to 65535 (the form shows [`BAD_PORT_STATUS`]).
pub fn save_candidate(
    current: &Settings,
    port: &str,
    work_dir: &str,
    node_path: &str,
    tray_on_close: Option<bool>,
    independent_service: Option<bool>,
) -> (r: Option<Settings>)
    ensures
        match form_port(port@) {
            None => r is None,
            Some(p) => r is Some && candidate_spec(
                *current,
                p,
                work_dir@,
                node_path@,
                tray_on_close,
                independent_service,
                r->0,
            ),
        },
{
    let pv = chars_of(port);
    let (a, b) = trim_bounds(pv.as_slice(), 0, pv.len());
    proof {
        assert(pv@.subrange(0, pv@.len() as int) =~= pv@);
    }
    let t = slice_to_vec(pv.as_slice(), a, b);
    let parsed = match parse_uint_chars(t.as_slice(), 65535) {
        Some(p) => p,
        None => {
            return None;
        },
    };
    if parsed < 1 {
        return None;
    }
    let tray = match tray_on_close {
        Some(v) => v,
        None => current.tray_on_close,
    };
    let lifecycle = match independent_service {
        Some(true) => ServiceLifecycle::Independent,
        Some(false) => ServiceLifecycle::Tied,
        None => current.service_lifecycle,
    };
    Some(
        Settings {
            schema_version: current.schema_version,
            port: parsed as u16,
            tray_on_close: tray,
            node_path: trimmed_string(node_path),
            work_dir: trimmed_string(work_dir),
            service_lifecycle: lifecycle,
            stop_stale_orphan: current.stop_stale_orphan,
        },
    )
}

/// Whether the port, the working directory or the node path differ: the
/// settings the running service was started with.
pub open spec fn launch_changed(old: Settings, new: Settings) -> bool {
    ||| old.port != new.port
    ||| old.work_dir@ != new.work_dir@
    ||| old.node_path@ != new.node_path@
}

fn same_text(a: &String, b: &String) -> (r: bool)
    ensures
        r == (a@ == b@),
{
    let av = chars_of(a.as_str());
    let bv = chars_of(b.as_str());
    chars_eq(av.as_slice(), bv.as_slice())
}

fn launch_differs(old: &Settings, new: &Settings) -> (r: bool)
    ensures
        r == launch_changed(*old, *new),
{
    old.port != new.port || !same_text(&old.work_dir, &new.work_dir) || !same_text(
        &old.node_path,
        &new.node_path,
    )
}

/// Whether switching to the new port needs the (advisory) check that nothing
/// holds it: only when the port changes under a running service of ours.
pub fn port_switch_needs_check(old: &Settings, new: &Settings, running: bool) -> (r: bool)
    ensures
        r == (running && old.port != new.port),
{
    running && old.port != new.port
}

/// The status line when the new port is taken.
pub open spec fn port_unavailable_spec(port: nat) -> Seq<char> {
    "新端口 "@ + dec(port) + " 当前不可用（被占用或处于 TIME_WAIT），无法切换；请换一个端口或稍后重试。"@
}

pub fn port_unavailable_status(port: u16) -> (r: String)
    ensures
        r@ == port_unavailable_spec(port as nat),
{
    let mut v: Vec<char> = Vec::new();
    push_str(&mut v, "新端口 ");
    push_u64(&mut v, port as u64);
    push_str(&mut v, " 当前不可用（被占用或处于 TIME_WAIT），无法切换；请换一个端口或稍后重试。");
    string_from_chars(v.as_slice())
}

/// What follows a successful save.
#[derive(Debug, Clone, Copy, PartialEq, Eq, Structural)]
pub enum SaveFollowUp {
    /// Only the lifecycle policy changed: record it, do not restart (it takes
    /// effect at the next natural restart); `tied` says which policy.
    LifecycleOnly { tied: bool },
    /// A running service of ours must restart with the new settings.
    Restart,
    /// Hand the new settings to the service; nothing restarts.
    Sync,
}

/// The follow-up of a save from `old` to `new`.
///
/// A change of the lifecycle alone never restarts the service (that would cut
/// the sessions for a policy that cannot apply to the running process anyway).
pub fn save_follow_up(old: &Settings, new: &Settings, running: bool) -> (r: SaveFollowUp)
    ensures
        ({
            let lifecycle_changed = old.service_lifecycle != new.service_lifecycle;
            if lifecycle_changed && !launch_changed(*old, *new) {
                r == SaveFollowUp::LifecycleOnly { tied: new.service_lifecycle == ServiceLifecycle::Tied }
            } else if running && launch_changed(*old, *new) {
                r == SaveFollowUp::Restart
            } else {
                r == SaveFollowUp::Sync
            }
        }),
{
    let launch = launch_differs(old, new);
    let lifecycle_changed = match (old.service_lifecycle, new.service_lifecycle) {
        (ServiceLifecycle::Independent, ServiceLifecycle::Independent) => false,
        (ServiceLifecycle::Tied, ServiceLifecycle::Tied) => false,
        _ => true,
    };
    if lifecycle_changed && !launch {
        let tied = match new.service_lifecycle {
            ServiceLifecycle::Tied => true,
            ServiceLifecycle::Independent => false,
        };
        SaveFollowUp::LifecycleOnly { tied }
    } else if running && launch {
        SaveFollowUp::Restart
    } else {
        SaveFollowUp::Sync
    }
}

/// The status line after a lifecycle-only change.
pub fn lifecycle_note(tied: bool) -> (r: &'static str)
    ensures
        r@ == if tied {
            "设置已保存：服务生命周期策略已改为「服务随启动器退出而停止」，将在下次服务重启后生效（本次不打断会话）。"@
        } else {
            "设置已保存：服务已改为「独立于启动器」，将在下次服务重启后生效（本次不打断会话）。"@
        },
{
    if tied {
        "设置已保存：服务生命周期策略已改为「服务随启动器退出而停止」，将在下次服务重启后生效（本次不打断会话）。"
    } else {
        "设置已保存：服务已改为「独立于启动器」，将在下次服务重启后生效（本次不打断会话）。"
    }
}

/// Whether restoring the defaults restarts the service: only a running service
/// of ours whose launch settings change.
pub fn reset_needs_restart(old: &Settings, new: &Settings, running: bool) -> (r: bool)
    ensures
        r == (running && launch_changed(*old, *new)),
{
    running && launch_differs(old, new)
}

/// A save never restarts the service for a change of the lifecycle alone, and
/// never restarts a service that is not running.
pub proof fn lemma_save_restarts_only_for_launch_changes(old: Settings, new: Settings, running: bool)
    ensures
        ({
            let lifecycle_changed = old.service_lifecycle != new.service_lifecycle;
            let r = if lifecycle_changed && !launch_changed(old, new) {
                SaveFollowUp::LifecycleOnly { tied: new.service_lifecycle == ServiceLifecycle::Tied }
            } else if running && launch_changed(old, new) {
                SaveFollowUp::Restart
            } else {
                SaveFollowUp::Sync
            };
            r == SaveFollowUp::Restart <==> (running && launch_changed(old, new))
        }),
{
}

// ---------------------------------------------------------------------------
// Leaving
// ---------------------------------------------------------------------------

/// How the launcher leaves.
#[derive(Debug, Clone, Copy, PartialEq, Eq, Structural)]
pub enum ExitPlan {
    /// Independent service: leave at once and keep the service.
    LeaveKeepingService,
    /// Tied, with no service running: stop whatever is left and leave.
    StopAndLeave,
    /// Tied with a service running: leaving stops it, so ask.
    Ask,
}

/// Leaving asks only when it would stop a running service.
pub fn exit_plan(own: bool, adopted: bool, tied: bool) -> (r: ExitPlan)
    ensures
        r == if !tied {
            ExitPlan::LeaveKeepingService
        } else if !(own || adopted) {
            ExitPlan::StopAndLeave
        } else {
            ExitPlan::Ask
        },
{
    if !tied {
        ExitPlan::LeaveKeepingService
    } else if !(own || adopted) {
        ExitPlan::StopAndLeave
    } else {
        ExitPlan::Ask
    }
}

// ---------------------------------------------------------------------------
// The archive-cleanup confirmation
// ---------------------------------------------------------------------------

pub open spec fn cleanup_service_note(running: bool) -> Seq<char> {
    if running {
        "· 会先停止 dsh 服务——**正在进行的会话与任务会立即中断**；\n· 清理完成后启动器会自动把服务重新启动。"@
    } else {
        "· 当前服务未运行，因此不会中断任何会话。"@
    }
}

/// The warning block: loud and naming the sessions when a runner is alive,
/// a note when only files were written recently, nothing otherwise.
pub open spec fn cleanup_activity_block(active: Option<ActiveSessions>) -> Seq<char> {
    match active {
        Some(a) => {
            let summary = summary_text(a.runner_processes as nat, a.recently_written as nat);
            if a.runner_processes > 0 {
                let hints = strings_view(a.recent_session_hint@);
                let hint = if hints.len() == 0 {
                    Seq::empty()
                } else {
                    "\n  涉及："@ + join_lines(hints, "、"@)
                };
                "\n\n⚠ **"@ + summary + "** —— 现在继续会打断它。"@ + hint
                    + "\n请先等会话结束，或确认你不在意中断。"@
            } else if a.recently_written > 0 {
                "\n\n注意："@ + summary + "（可能是刚结束的会话）。"@
            } else {
                Seq::empty()
            }
        },
        None => Seq::empty(),
    }
}

pub open spec fn cleanup_confirm_spec(
    running: bool,
    active: Option<ActiveSessions>,
    count: nat,
) -> Seq<char> {
    "即将清理全部归档会话（共 "@ + dec(count) + " 个）。\n\n"@ + cleanup_service_note(running)
        + "\n· 归档的历史数据将被**永久删除且不可恢复**。"@ + cleanup_activity_block(active)
        + "\n\n确定要继续吗？（默认「否」）"@
}

/// The second confirmation before archived sessions are deleted: it says that
/// the service stops, that the deletion cannot be undone, and warns by name
/// when a session is running.
pub fn cleanup_confirm_text(running: bool, active: Option<&ActiveSessions>, count: usize) -> (r:
    String)
    ensures
        r@ == cleanup_confirm_spec(
            running,
            match active {
                Some(a) => Some(*a),
                None => None,
            },
            count as nat,
        ),
{
    let mut v: Vec<char> = Vec::new();
    push_str(&mut v, "即将清理全部归档会话（共 ");
    push_u64(&mut v, count as u64);
    push_str(&mut v, " 个）。\n\n");
    if running {
        push_str(
            &mut v,
            "· 会先停止 dsh 服务——**正在进行的会话与任务会立即中断**；\n· 清理完成后启动器会自动把服务重新启动。",
        );
    } else {
        push_str(&mut v, "· 当前服务未运行，因此不会中断任何会话。");
    }
    push_str(&mut v, "\n· 归档的历史数据将被**永久删除且不可恢复**。");
    let ghost before_block = v@;
    match active {
        Some(a) => {
            if a.is_running() {
                let summary = a.summary();
                push_str(&mut v, "\n\n⚠ **");
                push_str(&mut v, summary.as_str());
                push_str(&mut v, "** —— 现在继续会打断它。");
                let ghost before_hint = v@;
                if a.recent_session_hint.len() > 0 {
                    push_str(&mut v, "\n  涉及：");
                    push_joined(&mut v, a.recent_session_hint.as_slice(), "、");
                }
                proof {
                    if a.recent_session_hint@.len() == 0 {
                        assert(v@ =~= before_hint);
                    }
                }
                push_str(&mut v, "\n请先等会话结束，或确认你不在意中断。");
            } else if a.any_activity() {
                let summary = a.summary();
                push_str(&mut v, "\n\n注意：");
                push_str(&mut v, summary.as_str());
                push_str(&mut v, "（可能是刚结束的会话）。");
            }
        },
        None => {},
    }
    let ghost act = match active {
        Some(a) => Some(*a),
        None => None,
    };
    assert(v@ =~= before_block + cleanup_activity_block(act));
    push_str(&mut v, "\n\n确定要继续吗？（默认「否」）");
    string_from_chars(v.as_slice())
}


// ---------------------------------------------------------------------------
// Start-up
// ---------------------------------------------------------------------------

/// `std::time::Instant`, carried through as a start point.
#[verifier::external_type_specification]
#[verifier::external_body]
pub struct ExInstant(std::time::Instant);

/// Times the start-up phases from the entry of `main`.
#[derive(Clone, Copy)]
pub struct BootTimer(std::time::Instant);

impl BootTimer {
    /// A timer whose zero is now (`Instant::now`); the time read is the
    /// machine's, so nothing is stated of it.
    #[verifier::external_body]
    pub fn start() -> (r: BootTimer) {
        BootTimer(std::time::Instant::now())
    }

    /// The time since the zero (`Instant::elapsed`); it depends on the clock,
    /// so nothing is stated of it.
    #[verifier::external_body]
    pub fn elapsed(&self) -> (r: std::time::Duration) {
        self.0.elapsed()
    }
}

/// The log line of a start-up mark: `[boot] <label>: <ms>ms`.
pub fn boot_line(label: &str, ms: u64) -> (r: String)
    ensures
        r@ == "[boot] "@ + label@ + ": "@ + dec(ms as nat) + "ms"@,
{
    let mut v: Vec<char> = Vec::new();
    push_str(&mut v, "[boot] ");
    push_str(&mut v, label);
    push_str(&mut v, ": ");
    push_u64(&mut v, ms);
    push_str(&mut v, "ms");
    string_from_chars(v.as_slice())
}

/// The start-up switches of the command line that concern the window.
#[derive(Debug, Clone, Copy, PartialEq, Eq, Structural)]
pub struct StartupOptions {
    /// `--settings`: open the settings window at start.
    pub open_settings: bool,
    /// `--guide`: open the guide at start.
    pub open_guide: bool,
    /// `--ipc-probe`: self-test of the settings page's channel.
    pub ipc_probe: bool,
}

impl Default for StartupOptions {
    fn default() -> (r: StartupOptions)
        ensures
            r == (StartupOptions { open_settings: false, open_guide: false, ipc_probe: false }),
    {
        StartupOptions { open_settings: false, open_guide: false, ipc_probe: false }
    }
}

impl StartupOptions {
    /// The switches as parsed from the command line.
    pub fn from_args(args: &crate::cli::Args) -> (r: StartupOptions)
        ensures
            r == (StartupOptions {
                open_settings: args.settings,
                open_guide: args.guide,
                ipc_probe: args.ipc_probe,
            }),
    {
        StartupOptions {
            open_settings: args.settings,
            open_guide: args.guide,
            ipc_probe: args.ipc_probe,
        }
    }
}


// ---------------------------------------------------------------------------
// Keys, closing, and the title-bar colour
// ---------------------------------------------------------------------------

/// The keys the embedded window handles.
#[derive(Debug, Clone, Copy, PartialEq, Eq, Structural)]
pub enum HarnessKey {
    Control,
    F5,
    R,
    Escape,
    Other,
}

/// What a key event on the embedded window does.
#[derive(Debug, Clone, Copy, PartialEq, Eq, Structural)]
pub enum KeyAction {
    Nothing,
    /// Reload the page (`F5`, `Ctrl+R`).
    Refresh,
    /// Close the window as its title bar would (`Esc`).
    Close,
}

/// One key event: the new state of the Ctrl key and the action. Auto-repeats
/// and releases act on nothing; Ctrl's state follows its own presses and
/// releases.
pub fn harness_key(key: HarnessKey, pressed: bool, repeat: bool, ctrl_down: bool) -> (r: (bool, KeyAction))
    ensures
        r.0 == if key == HarnessKey::Control {
            pressed
        } else {
            ctrl_down
        },
        r.1 == if !pressed || repeat {
            KeyAction::Nothing
        } else if key == HarnessKey::F5 || (key == HarnessKey::R && ctrl_down) {
            KeyAction::Refresh
        } else if key == HarnessKey::Escape {
            KeyAction::Close
        } else {
            KeyAction::Nothing
        },
{
    let fresh = pressed && !repeat;
    match key {
        HarnessKey::Control => (pressed, KeyAction::Nothing),
        HarnessKey::F5 => (ctrl_down, if fresh {
            KeyAction::Refresh
        } else {
            KeyAction::Nothing
        }),
        HarnessKey::R => (ctrl_down, if fresh && ctrl_down {
            KeyAction::Refresh
        } else {
            KeyAction::Nothing
        }),
        HarnessKey::Escape => (ctrl_down, if fresh {
            KeyAction::Close
        } else {
            KeyAction::Nothing
        }),
        HarnessKey::Other => (ctrl_down, KeyAction::Nothing),
    }
}

/// Closing the embedded window hides it to the tray when the user asked for
/// that; every other window (and the embedded one otherwise) really closes.
pub fn close_hides_to_tray(is_harness: bool, tray_on_close: bool) -> (r: bool)
    ensures
        r == (is_harness && tray_on_close),
{
    is_harness && tray_on_close
}

/// Milliseconds between two colour samples.
pub const THEME_SAMPLE_INTERVAL_MS: u64 = 3000;

/// Milliseconds after which an unanswered sample no longer blocks the next one.
pub const THEME_SAMPLE_CALLBACK_TIMEOUT_MS: u64 = 5000;

/// The bookkeeping of the title-bar colour sampling.
#[derive(Debug, Clone, Copy, PartialEq, Eq)]
pub struct ThemeSampler {
    /// A sample was submitted and its answer has not come.
    pub pending: bool,
    /// When the last sample was submitted (ms on the loop's clock).
    pub sampled_at: Option<u64>,
    /// The last colour applied.
    pub last_color: Option<(u8, u8, u8)>,
    /// "No colour yet" has been logged.
    pub warned_no_color: bool,
}

/// What the loop does after one step of the sampling.
#[derive(Debug, Clone, Copy, PartialEq, Eq, Structural)]
pub enum ThemeAction {
    Idle,
    /// Submit a sample script.
    Submit,
}

/// What to log about the answer that arrived.
#[derive(Debug, Clone, Copy, PartialEq, Eq)]
pub enum ThemeNote {
    Quiet,
    /// The title bar follows a new page colour.
    NewColor((u8, u8, u8)),
    /// The first sample found no colour (logged once).
    NoColorYet,
}

pub open spec fn theme_step_spec(
    s: ThemeSampler,
    answer: Option<Option<(u8, u8, u8)>>,
    now: u64,
    harness: HarnessPresence,
) -> (ThemeSampler, ThemeNote, ThemeAction) {
    let (s1, note) = match answer {
        Some(Some(rgb)) => if s.last_color != Some(rgb) {
            (ThemeSampler { pending: false, last_color: Some(rgb), ..s }, ThemeNote::NewColor(rgb))
        } else {
            (ThemeSampler { pending: false, ..s }, ThemeNote::Quiet)
        },
        Some(None) => if !s.warned_no_color {
            (ThemeSampler { pending: false, warned_no_color: true, ..s }, ThemeNote::NoColorYet)
        } else {
            (ThemeSampler { pending: false, ..s }, ThemeNote::Quiet)
        },
        None => (s, ThemeNote::Quiet),
    };
    let timed_out = s1.sampled_at is Some && now > s1.sampled_at->0 + THEME_SAMPLE_CALLBACK_TIMEOUT_MS;
    if s1.pending && !timed_out {
        (s1, note, ThemeAction::Idle)
    } else {
        let s2 = if s1.pending {
            ThemeSampler { pending: false, sampled_at: None, ..s1 }
        } else {
            s1
        };
        if s2.sampled_at is Some && now < s2.sampled_at->0 + THEME_SAMPLE_INTERVAL_MS {
            (s2, note, ThemeAction::Idle)
        } else if harness != HarnessPresence::Visible {
            (s2, note, ThemeAction::Idle)
        } else {
            (ThemeSampler { sampled_at: Some(now), ..s2 }, note, ThemeAction::Submit)
        }
    }
}

/// One tick of the colour sampling: take the answer that arrived, give up on
/// one that does not come, and sample again at most every three seconds while
/// the window is shown.
pub fn theme_step(
    s: ThemeSampler,
    answer: Option<Option<(u8, u8, u8)>>,
    now: u64,
    harness: HarnessPresence,
) -> (r: (ThemeSampler, ThemeNote, ThemeAction))
    requires
        s.sampled_at is Some ==> s.sampled_at->0 <= u64::MAX - THEME_SAMPLE_CALLBACK_TIMEOUT_MS,
    ensures
        r == theme_step_spec(s, answer, now, harness),
{
    let mut st = s;
    let mut note = ThemeNote::Quiet;
    match answer {
        Some(Some(rgb)) => {
            st.pending = false;
            let same = match st.last_color {
                Some(c) => c.0 == rgb.0 && c.1 == rgb.1 && c.2 == rgb.2,
                None => false,
            };
            if !same {
                st.last_color = Some(rgb);
                note = ThemeNote::NewColor(rgb);
            }
        },
        Some(None) => {
            st.pending = false;
            if !st.warned_no_color {
                st.warned_no_color = true;
                note = ThemeNote::NoColorYet;
            }
        },
        None => {},
    }
    let timed_out = match st.sampled_at {
        Some(at) => now > at + THEME_SAMPLE_CALLBACK_TIMEOUT_MS,
        None => false,
    };
    if st.pending {
        if !timed_out {
            return (st, note, ThemeAction::Idle);
        }
        st.pending = false;
        st.sampled_at = None;
    }
    match st.sampled_at {
        Some(at) => {
            if now < at + THEME_SAMPLE_INTERVAL_MS {
                return (st, note, ThemeAction::Idle);
            }
        },
        None => {},
    }
    match harness {
        HarnessPresence::Visible => {
            st.sampled_at = Some(now);
            (st, note, ThemeAction::Submit)
        },
        _ => (st, note, ThemeAction::Idle),
    }
}

/// Records whether the page accepted the submitted sample.
pub fn theme_submitted(s: ThemeSampler, accepted: bool) -> (r: ThemeSampler)
    ensures
        r == (ThemeSampler { pending: accepted, ..s }),
{
    ThemeSampler { pending: accepted, ..s }
}

/// Samples are never submitted more often than every three seconds: after a
/// submission at `t`, no step before `t + 3 s` submits again unless an
/// unanswered sample has timed out.
pub proof fn lemma_theme_sampling_is_rate_limited(
    s: ThemeSampler,
    answer: Option<Option<(u8, u8, u8)>>,
    now: u64,
    harness: HarnessPresence,
)
    requires
        s.sampled_at is Some,
        !s.pending,
        now < s.sampled_at->0 + THEME_SAMPLE_INTERVAL_MS,
    ensures
        theme_step_spec(s, answer, now, harness).2 == ThemeAction::Idle,
{
}


// ---------------------------------------------------------------------------
// Activation, opening, and the status lines of background work
// ---------------------------------------------------------------------------

/// Ticks (of 100 ms) an activation request waits for the service: 30 s.
pub const ACTIVATION_MAX_WAIT_TICKS: u64 = 300;

/// A pending activation request (a second start of the launcher).
#[derive(Debug, Clone, Copy, PartialEq, Eq, Structural)]
pub struct Activation {
    pub pending: bool,
    /// The tick after which the request expires.
    pub deadline: u64,
}

/// What an activation request leads to this tick.
#[derive(Debug, Clone, Copy, PartialEq, Eq, Structural)]
pub enum ActivationOutcome {
    /// Nothing yet (or nothing pending).
    Wait,
    /// Show the window (it exists, or the service now answers).
    Open,
    /// The service did not become ready in time: give up (worth a warning).
    Expired,
}

/// A new request (signalled this tick) restarts the wait.
pub fn activation_signalled(tick: u64) -> (r: Activation)
    requires
        tick <= u64::MAX - ACTIVATION_MAX_WAIT_TICKS,
    ensures
        r == (Activation { pending: true, deadline: (tick + ACTIVATION_MAX_WAIT_TICKS) as u64 }),
{
    Activation { pending: true, deadline: tick + ACTIVATION_MAX_WAIT_TICKS }
}

/// One tick of a pending activation: an existing window is shown at once;
/// before the start-up switches ran nothing happens; after the deadline the
/// request expires; otherwise the window opens once the port answers.
pub fn activation_step(a: Activation, tick: u64, harness_exists: bool, startup_done: bool, reachable: bool) -> (r: (
    Activation,
    ActivationOutcome,
))
    ensures
        r == if !a.pending {
            (a, ActivationOutcome::Wait)
        } else if harness_exists {
            (Activation { pending: false, ..a }, ActivationOutcome::Open)
        } else if !startup_done {
            (a, ActivationOutcome::Wait)
        } else if tick >= a.deadline {
            (Activation { pending: false, ..a }, ActivationOutcome::Expired)
        } else if reachable {
            (Activation { pending: false, ..a }, ActivationOutcome::Open)
        } else {
            (a, ActivationOutcome::Wait)
        },
{
    if !a.pending {
        (a, ActivationOutcome::Wait)
    } else if harness_exists {
        (Activation { pending: false, ..a }, ActivationOutcome::Open)
    } else if !startup_done {
        (a, ActivationOutcome::Wait)
    } else if tick >= a.deadline {
        (Activation { pending: false, ..a }, ActivationOutcome::Expired)
    } else if reachable {
        (Activation { pending: false, ..a }, ActivationOutcome::Open)
    } else {
        (a, ActivationOutcome::Wait)
    }
}

/// How opening the embedded window proceeds this tick.
#[derive(Debug, Clone, Copy, PartialEq, Eq, Structural)]
pub enum OpenDecision {
    /// The window exists: navigate it (when an address is settled) and show it.
    ShowExisting,
    /// The port does not answer yet: try again later (log it once).
    WaitForPort { log: bool },
    /// Settle the address and create the window.
    Create,
}

pub fn open_decision(harness_exists: bool, reachable: bool, not_ready_logged: bool) -> (r: OpenDecision)
    ensures
        r == if harness_exists {
            OpenDecision::ShowExisting
        } else if !reachable {
            OpenDecision::WaitForPort { log: !not_ready_logged }
        } else {
            OpenDecision::Create
        },
{
    if harness_exists {
        OpenDecision::ShowExisting
    } else if !reachable {
        OpenDecision::WaitForPort { log: !not_ready_logged }
    } else {
        OpenDecision::Create
    }
}

/// The address opened in the default browser: the pending tokenised address,
/// else the captured one, else the plain one; `true` when it carries no token
/// (the browser may ask to authorise again).
pub fn browser_url(pending: Option<String>, captured: Option<String>, plain: String) -> (r: (String, bool))
    ensures
        ({
            let chosen = if pending is Some && contains(pending->0@, "token="@) {
                pending->0@
            } else if captured is Some {
                captured->0@
            } else {
                plain@
            };
            r.0@ == chosen && r.1 == !contains(chosen, "token="@)
        }),
{
    let pending_ok = match &pending {
        Some(u) => contains_token(u.as_str()),
        None => false,
    };
    let url = if pending_ok {
        match pending {
            Some(u) => u,
            None => plain,
        }
    } else {
        match captured {
            Some(u) => u,
            None => plain,
        }
    };
    let warn = !contains_token(url.as_str());
    (url, warn)
}

/// The pending address after the service reported ready: a tokenised address
/// replaces it; anything else leaves it.
pub fn pending_after_ready(url: Option<String>, pending: Option<String>) -> (r: Option<String>)
    ensures
        r == if url is Some && contains(url->0@, "token="@) {
            url
        } else {
            pending
        },
{
    match url {
        Some(u) => {
            if contains_token(u.as_str()) {
                Some(u)
            } else {
                pending
            }
        },
        None => pending,
    }
}

/// The end of a piece of background work, as the settings page reports it.
#[derive(Debug, PartialEq)]
pub enum TaskResult {
    /// Archive clean-up: the number cleaned and the detail, or the error.
    Cleanup(Result<(usize, String), String>),
    Restart(Result<(), String>),
    Stop(Result<(), String>),
    Start(Result<(), String>),
}

/// The status line (and whether it is an error) for a finished piece of work.
pub fn task_status(t: &TaskResult) -> (r: (String, bool))
    ensures
        match t {
            TaskResult::Cleanup(Ok((n, d))) => r.0@ == "已清理 "@ + dec(*n as nat) + " 个归档会话。"@ + d@ && !r.1,
            TaskResult::Cleanup(Err(e)) => r.0@ == "清理失败："@ + e@ && r.1,
            TaskResult::Restart(Ok(())) => r.0@ == "设置已保存，服务已按新配置重启。"@ && !r.1,
            TaskResult::Restart(Err(e)) => r.0@ == "重启失败："@ + e@ && r.1,
            TaskResult::Stop(Ok(())) => r.0@ == "服务已停止。"@ && !r.1,
            TaskResult::Stop(Err(e)) => r.0@ == "停止失败："@ + e@ && r.1,
            TaskResult::Start(Ok(())) => r.0@ == "正在启动服务（就绪后界面会自动打开）…"@ && !r.1,
            TaskResult::Start(Err(e)) => r.0@ == "启动失败："@ + e@ && r.1,
        },
{
    let mut v: Vec<char> = Vec::new();
    let err = match t {
        TaskResult::Cleanup(Ok((n, d))) => {
            push_str(&mut v, "已清理 ");
            push_u64(&mut v, *n as u64);
            push_str(&mut v, " 个归档会话。");
            push_str(&mut v, d.as_str());
            false
        },
        TaskResult::Cleanup(Err(e)) => {
            push_str(&mut v, "清理失败：");
            push_str(&mut v, e.as_str());
            true
        },
        TaskResult::Restart(Ok(())) => {
            push_str(&mut v, "设置已保存，服务已按新配置重启。");
            false
        },
        TaskResult::Restart(Err(e)) => {
            push_str(&mut v, "重启失败：");
            push_str(&mut v, e.as_str());
            true
        },
        TaskResult::Stop(Ok(())) => {
            push_str(&mut v, "服务已停止。");
            false
        },
        TaskResult::Stop(Err(e)) => {
            push_str(&mut v, "停止失败：");
            push_str(&mut v, e.as_str());
            true
        },
        TaskResult::Start(Ok(())) => {
            push_str(&mut v, "正在启动服务（就绪后界面会自动打开）…");
            false
        },
        TaskResult::Start(Err(e)) => {
            push_str(&mut v, "启动失败：");
            push_str(&mut v, e.as_str());
            true
        },
    };
    (string_from_chars(v.as_slice()), err)
}

} // verus!
