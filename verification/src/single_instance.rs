//! One launcher per session: the names of the mutex and events the instances
//! share, and the outcome of asking a running instance to quit.
use vstd::prelude::*;

use crate::text::{dec, push_str, push_u64, string_from_chars};

verus! {

/// The single-instance mutex.
pub const MUTEX_NAME: &'static str = "Local\\DSHLauncher_SingleInstance_v5";

/// The event that brings the running instance to the front.
pub const ACTIVATE_EVENT_NAME: &'static str = "Local\\DSHLauncher_Activate_v5";

/// The event that asks the running instance to quit gracefully.
pub const QUIT_EVENT_NAME: &'static str = "Local\\DSHLauncher_Quit_v5";

/// The event the quitting instance sets once it has finished (or cancelled).
pub const QUIT_ACK_EVENT_NAME: &'static str = "Local\\DSHLauncher_QuitAck_v5";

/// How many more times a second launcher signals the activation event when the
/// first attempt fails (the running instance may not have created it yet).
pub const ACTIVATE_RETRIES: u32 = 20;

/// The pause between those attempts, in milliseconds.
pub const ACTIVATE_RETRY_MS: u64 = 100;

/// What a second launcher tells the user when the running instance could not be brought forward.
pub const ACTIVATE_FAILED_TEXT: &'static str = "已经有一个 DSHLauncher 在运行，但本次没能唤起它的窗口。\n\n请查看系统托盘（右下角隐藏图标）里的 DSHLauncher；\n若托盘里也没有，请等待几秒后重试。";

/// How long `--quit` waits for the acknowledgement, in milliseconds.
pub const QUIT_ACK_TIMEOUT_MS: u64 = 20_000;

/// The outcome of `--quit`.
#[derive(Debug, Clone, Copy, PartialEq, Eq, Structural)]
pub enum QuitOutcome {
    /// The running instance finished and acknowledged: it is gone.
    Acknowledged,
    /// The request went out but no acknowledgement came in time: undecided.
    Sent { waited_ms: u64 },
    /// No instance was running.
    NoInstance,
}

pub open spec fn sent_text(waited_ms: u64) -> Seq<char> {
    "已发出退出请求，但 "@ + dec((waited_ms / 1000) as nat)
        + " 秒内未收到回执：实例可能仍在运行（例如 tied 模式下确认框等待用户选择）。请确认后再覆盖产物。"@
}

impl QuitOutcome {
    /// The exit code for scripts: 0 when the launcher can be taken as gone, 3
    /// when that is undecided.
    pub fn exit_code(self) -> (r: i32)
        ensures
            r == match self {
                QuitOutcome::Sent { .. } => 3i32,
                _ => 0i32,
            },
    {
        match self {
            QuitOutcome::Acknowledged | QuitOutcome::NoInstance => 0,
            QuitOutcome::Sent { .. } => 3,
        }
    }

    /// The explanation for the user.
    pub fn describe(self) -> (r: String)
        ensures
            r@ == match self {
                QuitOutcome::Acknowledged => "已确认正在运行的实例完成优雅退出（服务去留按 service_lifecycle 决定）。"@,
                QuitOutcome::NoInstance => "没有正在运行的实例（无需退出）。"@,
                QuitOutcome::Sent { waited_ms } => sent_text(waited_ms),
            },
    {
        let mut v: Vec<char> = Vec::new();
        match self {
            QuitOutcome::Acknowledged => {
                push_str(&mut v, "已确认正在运行的实例完成优雅退出（服务去留按 service_lifecycle 决定）。");
            },
            QuitOutcome::NoInstance => {
                push_str(&mut v, "没有正在运行的实例（无需退出）。");
            },
            QuitOutcome::Sent { waited_ms } => {
                push_str(&mut v, "已发出退出请求，但 ");
                push_u64(&mut v, waited_ms / 1000);
                push_str(
                    &mut v,
                    " 秒内未收到回执：实例可能仍在运行（例如 tied 模式下确认框等待用户选择）。请确认后再覆盖产物。",
                );
            },
        }
        string_from_chars(v.as_slice())
    }
}

/// The outcome of a quit request: no instance when the signal found none; undecided
/// when there is no acknowledgement to wait for or it did not come; acknowledged otherwise.
pub fn quit_outcome(signaled: bool, ack_opened: bool, acknowledged: bool, waited_ms: u64) -> (r: QuitOutcome)
    ensures
        r == if !signaled {
            QuitOutcome::NoInstance
        } else if !ack_opened {
            QuitOutcome::Sent { waited_ms: 0 }
        } else if acknowledged {
            QuitOutcome::Acknowledged
        } else {
            QuitOutcome::Sent { waited_ms }
        },
{
    if !signaled {
        QuitOutcome::NoInstance
    } else if !ack_opened {
        QuitOutcome::Sent { waited_ms: 0 }
    } else if acknowledged {
        QuitOutcome::Acknowledged
    } else {
        QuitOutcome::Sent { waited_ms }
    }
}

/// The wait handed to the system, in milliseconds, capped at `u32::MAX`.
pub fn ack_wait_ms(timeout_ms: u64) -> (r: u32)
    ensures
        r == if timeout_ms < u32::MAX {
            timeout_ms
        } else {
            u32::MAX as u64
        },
{
    if timeout_ms < u32::MAX as u64 {
        timeout_ms as u32
    } else {
        u32::MAX
    }
}

/// The UTF-16 code units of one character.
pub open spec fn utf16_units(c: char) -> Seq<u16> {
    let u = c as u32;
    if u < 0x10000 {
        seq![u as u16]
    } else {
        seq![(0xD800 + (u - 0x10000) / 0x400) as u16, (0xDC00 + (u - 0x10000) % 0x400) as u16]
    }
}

/// The UTF-16 encoding of a text.
pub open spec fn utf16_of(s: Seq<char>) -> Seq<u16>
    decreases s.len(),
{
    if s.len() == 0 {
        Seq::empty()
    } else {
        utf16_of(s.drop_last()) + utf16_units(s.last())
    }
}

/// A string as UTF-16 with a terminating NUL (for wide Win32 calls).
pub fn to_wide(s: &str) -> (r: Vec<u16>)
    ensures
        r@ == utf16_of(s@).push(0u16),
{
    let v = crate::text::chars_of(s);
    let mut out: Vec<u16> = Vec::new();
    let mut i: usize = 0;
    while i < v.len()
        invariant
            i <= v.len(),
            out@ == utf16_of(v@.subrange(0, i as int)),
        decreases v.len() - i,
    {
        let u = v[i] as u32;
        let ghost before = out@;
        if u < 0x10000 {
            out.push(u as u16);
        } else {
            let w = u - 0x10000;
            out.push((0xD800 + w / 0x400) as u16);
            out.push((0xDC00 + w % 0x400) as u16);
        }
        proof {
            assert(v@.subrange(0, i + 1).drop_last() =~= v@.subrange(0, i as int));
            assert(out@ =~= before + utf16_units(v@[i as int]));
        }
        i = i + 1;
    }
    assert(v@.subrange(0, v@.len() as int) =~= v@);
    out.push(0);
    out
}

} // verus!
