//! The texts of the launcher's dialogs, and the plain-text rendering of the
//! guide used when no web view can show it.
use vstd::prelude::*;

use crate::cli::RELEASE_CHANNEL;
use crate::text::{
    chars_of, first_match_from, is_first_match_from, lemma_first_match_some, lower_chars,
    lower_seq, push_all, push_str, replace_all, replace_chars, slice_to_vec, split_chars,
    split_on, seqs_view, string_from_chars, trim, trim_bounds, find_from,
};
use crate::APP_NAME;

verus! {

/// The answer to "stop the service on exit?".
#[derive(Debug, Clone, Copy, PartialEq, Eq, Structural)]
pub enum ExitChoice {
    /// Yes: stop the service, then exit.
    StopServiceAndExit,
    /// No (the default): leave the service running and exit.
    KeepServiceAndExit,
    /// Cancel: do not exit.
    Cancel,
}

pub open spec fn service_names(has_own_service: bool, has_adopted: bool) -> Seq<char> {
    if has_own_service && has_adopted {
        "服务、外部实例"@
    } else if !has_own_service && has_adopted {
        "外部实例"@
    } else {
        "服务"@
    }
}

pub open spec fn keep_line(tied_service: bool) -> Seq<char> {
    if tied_service {
        KEEP_TIED@
    } else {
        KEEP_INDEPENDENT@
    }
}

pub const KEEP_TIED: &'static str = "【否】（默认，推荐）后台继续运行：本次会解除「随启动器退出而停止」的绑定，\n正在进行的会话与任务不会中断，下次打开启动器会自动重新接管。";

pub const KEEP_INDEPENDENT: &'static str = "【否】（默认，推荐）后台继续运行：服务本就独立于启动器，\n正在进行的会话与任务不会中断，下次打开启动器会自动重新接管。";

/// The question asked on exit while a service runs; "No" (keep it) is the default.
pub open spec fn service_stop_prompt_spec(has_own_service: bool, has_adopted: bool, tied_service: bool) -> Seq<char> {
    "DSH Harness 正在运行（"@ + service_names(has_own_service, has_adopted) + "）。\n\n退出启动器时，这个服务要一起停止吗？\n\n"@
        + keep_line(tied_service) + "\n\n【是】停止服务并退出：正在进行的会话与任务会被立即中断。\n\n【取消】不退出，继续使用。"@
}

pub fn service_stop_prompt(has_own_service: bool, has_adopted: bool, tied_service: bool) -> (r: String)
    ensures
        r@ == service_stop_prompt_spec(has_own_service, has_adopted, tied_service),
{
    let mut v: Vec<char> = Vec::new();
    push_str(&mut v, "DSH Harness 正在运行（");
    if has_own_service && has_adopted {
        push_str(&mut v, "服务、外部实例");
    } else if !has_own_service && has_adopted {
        push_str(&mut v, "外部实例");
    } else {
        push_str(&mut v, "服务");
    }
    push_str(&mut v, "）。\n\n退出启动器时，这个服务要一起停止吗？\n\n");
    if tied_service {
        push_str(&mut v, KEEP_TIED);
    } else {
        push_str(&mut v, KEEP_INDEPENDENT);
    }
    push_str(&mut v, "\n\n【是】停止服务并退出：正在进行的会话与任务会被立即中断。\n\n【取消】不退出，继续使用。");
    assert(v@ =~= service_stop_prompt_spec(has_own_service, has_adopted, tied_service));
    string_from_chars(v.as_slice())
}

/// The question asked when the embedded page needs authentication.
pub open spec fn auth_restart_prompt_spec(activity: Seq<char>) -> Seq<char> {
    "内嵌界面无法认证，当前显示的是 dsh 的「需要认证」提示页。\n\n原因：正在运行的 dsh 服务不是本启动器启动的，启动器读不到它启动时打印的\n一次性 token；而本机 WebView2 配置里也没有可用的登录 cookie。\n\n活跃会话探测："@ + activity + "\n\n是否**重启 dsh 服务**以便启动器取得新的 token 并自动打开界面？\n\n· 重启会中断正在进行的任务；历史会话与文件都在磁盘上，不会丢失。\n· 重启后的服务由启动器托管，界面会自动刷新为正常页面。\n· 若选择「否」，界面保持不可用；稍后可在托盘菜单执行「停止服务」→「启动服务」。"@
}

pub fn auth_restart_prompt(activity: &str) -> (r: String)
    ensures
        r@ == auth_restart_prompt_spec(activity@),
{
    let mut v: Vec<char> = Vec::new();
    push_str(&mut v, "内嵌界面无法认证，当前显示的是 dsh 的「需要认证」提示页。\n\n原因：正在运行的 dsh 服务不是本启动器启动的，启动器读不到它启动时打印的\n一次性 token；而本机 WebView2 配置里也没有可用的登录 cookie。\n\n活跃会话探测：");
    push_str(&mut v, activity);
    push_str(&mut v, "\n\n是否**重启 dsh 服务**以便启动器取得新的 token 并自动打开界面？\n\n· 重启会中断正在进行的任务；历史会话与文件都在磁盘上，不会丢失。\n· 重启后的服务由启动器托管，界面会自动刷新为正常页面。\n· 若选择「否」，界面保持不可用；稍后可在托盘菜单执行「停止服务」→「启动服务」。");
    string_from_chars(v.as_slice())
}

/// The title of that question.
pub fn auth_restart_title() -> (r: String)
    ensures
        r@ == APP_NAME@ + " · 界面需要认证"@,
{
    let mut v: Vec<char> = Vec::new();
    push_str(&mut v, APP_NAME);
    push_str(&mut v, " · 界面需要认证");
    string_from_chars(v.as_slice())
}

pub open spec fn lifecycle_line(tied_service: bool) -> Seq<char> {
    if tied_service {
        LIFECYCLE_TIED@
    } else {
        LIFECYCLE_INDEPENDENT@
    }
}

pub const LIFECYCLE_TIED: &'static str = "进程回收：Windows Job Object（tied 模式：启动器被强杀时由内核回收 dsh）";

pub const LIFECYCLE_INDEPENDENT: &'static str = "服务生命周期：独立于启动器（默认）——退出/崩溃/升级启动器都不会中断会话，\n服务归属由 service.json 簿记 + 下次启动对账保证（可选 tied 模式改用 Job Object）";

/// The "About" text.
pub open spec fn about_spec(version: Seq<char>, tied_service: bool) -> Seq<char> {
    APP_NAME@ + " v"@ + version + " "@ + RELEASE_CHANNEL@ + "（"@ + RELEASE_CHANNEL@ + " "@
        + "长期支持版）\n\n内嵌 WebView2 桌面启动器：自动启动 / 接管 dsh web，托盘常驻，无需浏览器。\n\n构建：Rust（wry + tao 直连，无 .NET 依赖，MSRV 1.82）\n"@ + lifecycle_line(tied_service)
}

pub fn about_text(version: &str, tied_service: bool) -> (r: String)
    ensures
        r@ == about_spec(version@, tied_service),
{
    let mut v: Vec<char> = Vec::new();
    push_str(&mut v, APP_NAME);
    push_str(&mut v, " v");
    push_str(&mut v, version);
    push_str(&mut v, " ");
    push_str(&mut v, RELEASE_CHANNEL);
    push_str(&mut v, "（");
    push_str(&mut v, RELEASE_CHANNEL);
    push_str(&mut v, " ");
    push_str(&mut v, "长期支持版）\n\n内嵌 WebView2 桌面启动器：自动启动 / 接管 dsh web，托盘常驻，无需浏览器。\n\n构建：Rust（wry + tao 直连，无 .NET 依赖，MSRV 1.82）\n");
    if tied_service {
        push_str(&mut v, LIFECYCLE_TIED);
    } else {
        push_str(&mut v, LIFECYCLE_INDEPENDENT);
    }
    assert(v@ =~= about_spec(version@, tied_service));
    string_from_chars(v.as_slice())
}

// ---------------------------------------------------------------------------
// The guide as plain text
// ---------------------------------------------------------------------------

/// `<script>` and `<style>` blocks removed from `h` (with `lw` its lower-cased
/// form) from position `cursor` on, appended to `acc`; the flag tells that a
/// block was never closed (the rest is then dropped).
pub open spec fn strip_acc(h: Seq<char>, lw: Seq<char>, cursor: int, acc: Seq<char>) -> (Seq<char>, bool)
    decreases h.len() - cursor,
{
    if cursor < 0 || cursor >= h.len() || lw.len() != h.len() {
        (acc, false)
    } else {
        let a = first_match_from(lw, cursor, "<script"@);
        let b = first_match_from(lw, cursor, "<style"@);
        if a is None && b is None {
            (acc + h.subrange(cursor, h.len() as int), false)
        } else {
            let use_script = a is Some && (b is None || a->0 < b->0);
            let open = if use_script {
                a->0
            } else {
                b->0
            };
            let close = if use_script {
                "</script>"@
            } else {
                "</style>"@
            };
            proof {
                lemma_first_match_some(lw, cursor, "<script"@);
                lemma_first_match_some(lw, cursor, "<style"@);
                lemma_first_match_some(lw, open, close);
                reveal_strlit("</script>");
                reveal_strlit("</style>");
            }
            match first_match_from(lw, open, close) {
                None => (acc + h.subrange(cursor, open), true),
                Some(rc) => strip_acc(h, lw, rc + close.len(), acc + h.subrange(cursor, open)),
            }
        }
    }
}

pub open spec fn strip_blocks_spec(h: Seq<char>) -> (Seq<char>, bool) {
    strip_acc(h, lower_seq(h), 0, Seq::empty())
}

fn strip_blocks_chars(h: &[char]) -> (r: (Vec<char>, bool))
    ensures
        (r.0@, r.1) == strip_blocks_spec(h@),
{
    let lw = lower_chars(h);
    let script = chars_of("<script");
    let style = chars_of("<style");
    let script_end = chars_of("</script>");
    let style_end = chars_of("</style>");
    let mut out: Vec<char> = Vec::new();
    let mut cursor: usize = 0;
    while cursor < h.len()
        invariant
            cursor <= h.len() + 9,
            lw@ == lower_seq(h@),
            lw@.len() == h@.len(),
            script@ == "<script"@,
            style@ == "<style"@,
            script_end@ == "</script>"@,
            style_end@ == "</style>"@,
            strip_acc(h@, lw@, cursor as int, out@) == strip_blocks_spec(h@),
        decreases h.len() + 9 - cursor,
    {
        let a = find_from(lw.as_slice(), cursor, script.as_slice());
        let b = find_from(lw.as_slice(), cursor, style.as_slice());
        let (open, use_script) = match (a, b) {
            (None, None) => {
                let rest = slice_to_vec(h, cursor, h.len());
                push_all(&mut out, rest.as_slice());
                return (out, false);
            },
            (Some(x), None) => (x, true),
            (None, Some(y)) => (y, false),
            (Some(x), Some(y)) => if x < y {
                (x, true)
            } else {
                (y, false)
            },
        };
        proof {
            reveal_strlit("</script>");
            reveal_strlit("</style>");
        }
        let close: &Vec<char> = if use_script {
            &script_end
        } else {
            &style_end
        };
        let before = slice_to_vec(h, cursor, open);
        let found = find_from(lw.as_slice(), open, close.as_slice());
        push_all(&mut out, before.as_slice());
        match found {
            None => {
                return (out, true);
            },
            Some(rc) => {
                assert(rc + close@.len() <= lw@.len());
                cursor = rc + close.len();
            },
        }
    }
    (out, false)
}

/// `html` with its `<script>` and `<style>` blocks removed, and whether one
/// was left unclosed.
pub fn strip_blocks(html: &str) -> (r: (String, bool))
    ensures
        (r.0@, r.1) == strip_blocks_spec(html@),
{
    let h = chars_of(html);
    let (out, truncated) = strip_blocks_chars(h.as_slice());
    (string_from_chars(out.as_slice()), truncated)
}

/// Tags removed from position `i` on: the text between them is kept, each
/// closing `>` becomes a line break.
pub open spec fn untag_acc(s: Seq<char>, i: int, in_tag: bool, acc: Seq<char>) -> Seq<char>
    decreases s.len() - i,
{
    if i < 0 || i >= s.len() {
        acc
    } else if s[i] == '<' {
        untag_acc(s, i + 1, true, acc)
    } else if s[i] == '>' {
        untag_acc(s, i + 1, false, acc.push('\n'))
    } else if in_tag {
        untag_acc(s, i + 1, true, acc)
    } else {
        untag_acc(s, i + 1, false, acc.push(s[i]))
    }
}

/// The lines, trimmed, blank ones dropped, each ended by a line break.
pub open spec fn clean_lines(ls: Seq<Seq<char>>) -> Seq<char>
    decreases ls.len(),
{
    if ls.len() == 0 {
        Seq::empty()
    } else {
        let t = trim(ls.last());
        clean_lines(ls.drop_last()) + if t.len() == 0 {
            Seq::empty()
        } else {
            t.push('\n')
        }
    }
}

/// The entities the guide uses, decoded (`&amp;` last).
pub open spec fn decode_entities(s: Seq<char>) -> Seq<char> {
    replace_all(
        replace_all(
            replace_all(
                replace_all(replace_all(replace_all(s, "&nbsp;"@, " "@), "&lt;"@, "<"@), "&gt;"@, ">"@),
                "&quot;"@,
                "\""@,
            ),
            "&#39;"@,
            "'"@,
        ),
        "&amp;"@,
        "&"@,
    )
}

pub const GUIDE_TRUNCATED_NOTE: &'static str = "\n\n（指引内容解析不完整：内嵌 HTML 结构异常，已改用简化提示）\n可在托盘菜单 →「新手指引」重试；若持续失败请查看维护手册。";

pub const GUIDE_UNAVAILABLE: &'static str = "新手指引暂时不可用：请从托盘菜单重试，或查看 docs/MAINTENANCE.zh.md。";

/// The guide as plain text: blocks stripped, tags removed, lines trimmed,
/// entities decoded; a note when a block was left unclosed; a fixed message
/// when nothing remains.
pub open spec fn plain_text_spec(html: Seq<char>) -> Seq<char> {
    let (body, truncated) = strip_blocks_spec(html);
    let t = trim(decode_entities(clean_lines(split_on(untag_acc(body, 0, false, Seq::empty()), '\n'))));
    let t2 = if truncated {
        t + GUIDE_TRUNCATED_NOTE@
    } else {
        t
    };
    if t2.len() == 0 {
        GUIDE_UNAVAILABLE@
    } else {
        t2
    }
}

pub fn html_to_plain_text(html: &str) -> (r: String)
    ensures
        r@ == plain_text_spec(html@),
{
    let h = chars_of(html);
    let (body, truncated) = strip_blocks_chars(h.as_slice());
    let mut out: Vec<char> = Vec::new();
    let mut in_tag = false;
    let mut i: usize = 0;
    while i < body.len()
        invariant
            i <= body.len(),
            untag_acc(body@, i as int, in_tag, out@) == untag_acc(body@, 0, false, Seq::empty()),
        decreases body.len() - i,
    {
        let c = body[i];
        if c == '<' {
            in_tag = true;
        } else if c == '>' {
            in_tag = false;
            out.push('\n');
        } else if !in_tag {
            out.push(c);
        }
        i = i + 1;
    }
    let lines = split_chars(out.as_slice(), '\n');
    let ghost lv = seqs_view(lines@);
    let mut cleaned: Vec<char> = Vec::new();
    let mut k: usize = 0;
    while k < lines.len()
        invariant
            k <= lines.len(),
            lv == seqs_view(lines@),
            cleaned@ == clean_lines(lv.subrange(0, k as int)),
        decreases lines.len() - k,
    {
        assert(lv.subrange(0, k + 1).drop_last() =~= lv.subrange(0, k as int));
        assert(lv.subrange(0, k + 1).last() == lines@[k as int]@);
        let l = &lines[k];
        let (a, b) = trim_bounds(l.as_slice(), 0, l.len());
        proof {
            assert(l@.subrange(0, l@.len() as int) =~= l@);
        }
        if a < b {
            let t = slice_to_vec(l.as_slice(), a, b);
            let ghost before = cleaned@;
            push_all(&mut cleaned, t.as_slice());
            cleaned.push('\n');
            assert(cleaned@ =~= before + t@.push('\n'));
        } else {
            assert(cleaned@ =~= cleaned@ + Seq::<char>::empty());
        }
        k = k + 1;
    }
    assert(lv.subrange(0, lv.len() as int) =~= lv);
    let r1 = replace_chars(cleaned.as_slice(), "&nbsp;", " ");
    let r2 = replace_chars(r1.as_slice(), "&lt;", "<");
    let r3 = replace_chars(r2.as_slice(), "&gt;", ">");
    let r4 = replace_chars(r3.as_slice(), "&quot;", "\"");
    let r5 = replace_chars(r4.as_slice(), "&#39;", "'");
    let r6 = replace_chars(r5.as_slice(), "&amp;", "&");
    let (ta, tb) = trim_bounds(r6.as_slice(), 0, r6.len());
    proof {
        assert(r6@.subrange(0, r6@.len() as int) =~= r6@);
    }
    let mut text = slice_to_vec(r6.as_slice(), ta, tb);
    if truncated {
        push_str(&mut text, GUIDE_TRUNCATED_NOTE);
    }
    if text.len() == 0 {
        return string_from_chars(chars_of(GUIDE_UNAVAILABLE).as_slice());
    }
    string_from_chars(text.as_slice())
}

} // verus!
