use dsh_launcher::config::{ServiceLifecycle, Settings};
use dsh_launcher::harness::AuthState;
use dsh_launcher::launcher::{
    auth_recovery_action, auth_step, auth_submitted, boot_line, cleanup_confirm_text,
    contains_token, exit_plan, lifecycle_note, port_switch_needs_check, port_unavailable_status,
    reset_needs_restart, save_candidate, save_follow_up, settle_auth_url, AuthCheck,
    AuthCheckAction, AuthRecovery, ExitPlan, HarnessPresence, SaveFollowUp, StartupOptions,
    AUTH_CHECK_MAX_ATTEMPTS, AUTH_URL_WAIT_TICKS,
};
use dsh_launcher::launcher::{activation_signalled, activation_step, ActivationOutcome};
use dsh_launcher::launcher::{browser_url, open_decision, pending_after_ready, OpenDecision};
use dsh_launcher::launcher::{task_status, TaskResult};
use dsh_launcher::maintenance::ActiveSessions;

fn sessions(runners: usize, recent: usize) -> ActiveSessions {
    ActiveSessions { runner_processes: runners, recently_written: recent, recent_session_hint: Vec::new() }
}

#[test]
fn auth_recovery_only_auto_restarts_when_provably_idle() {
    assert_eq!(auth_recovery_action(Some(&sessions(0, 0))), AuthRecovery::AutoRestart, "明确没有活跃会话时才允许不询问");
    assert_eq!(auth_recovery_action(Some(&sessions(1, 0))), AuthRecovery::AskUser, "有会话运行器进程 ⇒ 必须询问");
    assert_eq!(auth_recovery_action(Some(&sessions(0, 3))), AuthRecovery::AskUser, "只有软信号（近期写入）也要询问");
    assert_eq!(auth_recovery_action(None), AuthRecovery::AskUser, "无法判定 ⇒ 必须询问（不得猜成「没有会话」）");
}

#[test]
fn token_addresses_are_recognised() {
    assert!(contains_token("http://127.0.0.1:3080/?token=abc"));
    assert!(!contains_token("http://127.0.0.1:3080/"));
}

#[test]
fn tokenised_pending_address_goes_at_once() {
    let s = settle_auth_url(Some("http://127.0.0.1:3080/?token=a".into()), true, None, "http://127.0.0.1:3080/".into(), 3);
    assert_eq!(s.url.as_deref(), Some("http://127.0.0.1:3080/?token=a"));
    assert_eq!(s.ticks, AUTH_URL_WAIT_TICKS);
    assert!(!s.gave_up);
}

#[test]
fn own_service_waits_for_its_token_then_gives_up() {
    let plain = "http://127.0.0.1:3080/".to_string();
    let s = settle_auth_url(Some(plain.clone()), true, None, plain.clone(), 2);
    assert_eq!(s.url, None);
    assert_eq!(s.ticks, 1);
    let s = settle_auth_url(None, true, Some("http://127.0.0.1:3080/?token=t".into()), plain.clone(), 1);
    assert_eq!(s.url.as_deref(), Some("http://127.0.0.1:3080/?token=t"));
    assert_eq!(s.pending.as_deref(), Some("http://127.0.0.1:3080/?token=t"));
    let s = settle_auth_url(None, true, None, plain.clone(), 0);
    assert_eq!(s.url.as_deref(), Some(plain.as_str()));
    assert!(s.gave_up);
}

#[test]
fn adopted_service_uses_the_plain_address() {
    let plain = "http://127.0.0.1:3080/".to_string();
    let s = settle_auth_url(None, false, None, plain.clone(), 7);
    assert_eq!(s.url.as_deref(), Some(plain.as_str()));
    assert_eq!(s.ticks, AUTH_URL_WAIT_TICKS);
}

#[test]
fn auth_check_submits_when_due_and_recovers_once() {
    let s = AuthCheck::schedule(1000);
    let (s, a) = auth_step(s, None, 1000, HarnessPresence::Visible);
    assert_eq!(a, AuthCheckAction::Idle, "not due yet");
    let (s, a) = auth_step(s, None, 2500, HarnessPresence::Visible);
    assert_eq!(a, AuthCheckAction::Submit);
    assert_eq!(s.attempts, 1);
    let s = auth_submitted(s, true);
    let (s, a) = auth_step(s, None, 3000, HarnessPresence::Visible);
    assert_eq!(a, AuthCheckAction::Idle, "an answer is pending");
    let (s, a) = auth_step(s, Some(AuthState::Required), 3100, HarnessPresence::Visible);
    assert_eq!(a, AuthCheckAction::Recover);
    let (_, a) = auth_step(s, Some(AuthState::Required), 3200, HarnessPresence::Visible);
    assert_eq!(a, AuthCheckAction::Idle, "recovery is offered once");
}

#[test]
fn auth_check_logs_ok_once_and_gives_up_after_the_limit() {
    let s = AuthCheck::schedule(0);
    let (s, a) = auth_step(s, Some(AuthState::Authenticated), 10, HarnessPresence::Visible);
    assert_eq!(a, AuthCheckAction::LogOk);
    let (_, a) = auth_step(s, Some(AuthState::Authenticated), 20, HarnessPresence::Visible);
    assert_eq!(a, AuthCheckAction::Idle);
    let mut s = AuthCheck::schedule(0);
    let mut now = 0u64;
    let mut submitted = 0;
    for _ in 0..40 {
        now += 2000;
        let (n, a) = auth_step(s, Some(AuthState::Unknown), now, HarnessPresence::Visible);
        s = n;
        if a == AuthCheckAction::Submit {
            submitted += 1;
            s = auth_submitted(s, true);
        }
    }
    assert_eq!(submitted, AUTH_CHECK_MAX_ATTEMPTS);
}

#[test]
fn hidden_or_closed_window_is_not_checked() {
    let s = AuthCheck::schedule(0);
    let (s, a) = auth_step(s, None, 5000, HarnessPresence::Hidden);
    assert_eq!(a, AuthCheckAction::Idle);
    assert!(s.due_at.is_some());
    let (s, a) = auth_step(s, None, 5000, HarnessPresence::Absent);
    assert_eq!(a, AuthCheckAction::Idle);
    assert_eq!(s.due_at, None);
}

#[test]
fn save_validates_the_port_and_keeps_absent_switches() {
    let cur = Settings { tray_on_close: false, service_lifecycle: ServiceLifecycle::Tied, ..Default::default() };
    assert!(save_candidate(&cur, "0", "", "", None, None).is_none());
    assert!(save_candidate(&cur, "70000", "", "", None, None).is_none());
    assert!(save_candidate(&cur, "abc", "", "", None, None).is_none());
    let c = save_candidate(&cur, " 3090 ", "  D:\\ws ", "", None, None).unwrap();
    assert_eq!(c.port, 3090);
    assert_eq!(c.work_dir, "D:\\ws");
    assert!(!c.tray_on_close, "an absent switch keeps the current value");
    assert_eq!(c.service_lifecycle, ServiceLifecycle::Tied);
    let c = save_candidate(&cur, "3090", "", "", Some(true), Some(true)).unwrap();
    assert!(c.tray_on_close);
    assert_eq!(c.service_lifecycle, ServiceLifecycle::Independent);
}

#[test]
fn save_follow_up_restarts_only_for_launch_changes() {
    let old = Settings::default();
    let tied = Settings { service_lifecycle: ServiceLifecycle::Tied, ..Default::default() };
    assert_eq!(save_follow_up(&old, &tied, true), SaveFollowUp::LifecycleOnly { tied: true });
    let moved = Settings { port: 3099, ..Default::default() };
    assert_eq!(save_follow_up(&old, &moved, true), SaveFollowUp::Restart);
    assert_eq!(save_follow_up(&old, &moved, false), SaveFollowUp::Sync);
    let tray = Settings { tray_on_close: false, ..Default::default() };
    assert_eq!(save_follow_up(&old, &tray, true), SaveFollowUp::Sync);
    assert!(port_switch_needs_check(&old, &moved, true));
    assert!(!port_switch_needs_check(&old, &moved, false));
    assert!(reset_needs_restart(&moved, &old, true));
    assert!(!reset_needs_restart(&tray, &old, true));
    assert!(port_unavailable_status(3099).starts_with("新端口 3099 当前不可用"));
    assert!(lifecycle_note(true).contains("服务随启动器退出而停止"));
}

#[test]
fn exit_asks_only_when_it_would_stop_a_service() {
    assert_eq!(exit_plan(true, false, false), ExitPlan::LeaveKeepingService);
    assert_eq!(exit_plan(false, false, true), ExitPlan::StopAndLeave);
    assert_eq!(exit_plan(true, false, true), ExitPlan::Ask);
    assert_eq!(exit_plan(false, true, true), ExitPlan::Ask);
}

#[test]
fn cleanup_confirmation_warns_by_name() {
    let busy = ActiveSessions { runner_processes: 1, recently_written: 0, recent_session_hint: vec!["s1".into(), "s2".into()] };
    let t = cleanup_confirm_text(true, Some(&busy), 4);
    assert!(t.starts_with("即将清理全部归档会话（共 4 个）。"), "{t}");
    assert!(t.contains("会先停止 dsh 服务"), "{t}");
    assert!(t.contains("⚠ **检测到 1 个正在运行的会话进程** —— 现在继续会打断它。\n  涉及：s1、s2"), "{t}");
    assert!(t.ends_with("确定要继续吗？（默认「否」）"));
    let quiet = cleanup_confirm_text(false, Some(&sessions(0, 0)), 0);
    assert!(quiet.contains("当前服务未运行"), "{quiet}");
    assert!(!quiet.contains("⚠"));
    let soft = cleanup_confirm_text(false, Some(&sessions(0, 2)), 1);
    assert!(soft.contains("注意：2 个会话文件在最近 5 分钟内被写过（可能是刚结束的会话）。"), "{soft}");
}

#[test]
fn boot_lines_and_startup_options() {
    assert_eq!(boot_line("main", 12), "[boot] main: 12ms");
    assert_eq!(StartupOptions::default(), StartupOptions { open_settings: false, open_guide: false, ipc_probe: false });
    let a = dsh_launcher::cli::parse_from(vec!["--ipc-probe".to_string()]);
    let o = StartupOptions::from_args(&a);
    assert!(o.open_settings && o.ipc_probe && !o.open_guide);
}

#[test]
fn activation_opens_shows_or_expires() {
    let a = activation_signalled(10);
    assert_eq!(a.deadline, 310);
    assert_eq!(activation_step(a, 11, true, false, false).1, ActivationOutcome::Open);
    assert_eq!(activation_step(a, 11, false, false, true).1, ActivationOutcome::Wait);
    assert_eq!(activation_step(a, 11, false, true, false).1, ActivationOutcome::Wait);
    assert_eq!(activation_step(a, 11, false, true, true).1, ActivationOutcome::Open);
    let (after, out) = activation_step(a, 310, false, true, true);
    assert_eq!(out, ActivationOutcome::Expired);
    assert!(!after.pending);
}

#[test]
fn opening_and_browser_addresses() {
    assert_eq!(open_decision(true, false, false), OpenDecision::ShowExisting);
    assert_eq!(open_decision(false, false, false), OpenDecision::WaitForPort { log: true });
    assert_eq!(open_decision(false, false, true), OpenDecision::WaitForPort { log: false });
    assert_eq!(open_decision(false, true, true), OpenDecision::Create);
    let plain = "http://127.0.0.1:3080/".to_string();
    let tok = "http://127.0.0.1:3080/?token=t".to_string();
    assert_eq!(browser_url(Some(tok.clone()), None, plain.clone()), (tok.clone(), false));
    assert_eq!(browser_url(Some(plain.clone()), None, plain.clone()), (plain.clone(), true));
    assert_eq!(browser_url(None, Some(tok.clone()), plain.clone()), (tok.clone(), false));
    assert_eq!(pending_after_ready(Some(tok.clone()), None), Some(tok.clone()));
    assert_eq!(pending_after_ready(Some(plain.clone()), None), None);
}

#[test]
fn background_work_is_reported() {
    assert_eq!(task_status(&TaskResult::Cleanup(Ok((2, "ok".into())))), ("已清理 2 个归档会话。ok".to_string(), false));
    assert_eq!(task_status(&TaskResult::Stop(Err("x".into()))), ("停止失败：x".to_string(), true));
    assert_eq!(task_status(&TaskResult::Restart(Ok(()))).1, false);
    assert!(task_status(&TaskResult::Start(Err("e".into()))).0.starts_with("启动失败："));
}
