//! What the uninstaller reports: the dry-run plan, the residue clean-up, the
//! decision on the install directory itself, and the final verdict with its
//! exit code (0 success, 1 a step failed, 2 refused by a guard).
use vstd::prelude::*;

use crate::text::{dec, join_lines, push_joined, push_str, push_u64, string_from_chars, strings_view};
use crate::uninstall::guards::UNINSTALL_KEY;
use crate::uninstall::plan::{opt_string, Context, MARKER_NAME, SELF_NAME};
use crate::paths::{join, join_path};
use crate::winpath::same_path_spec;

verus! {

/// Each item behind a prefix.
pub open spec fn bullets(prefix: Seq<char>, items: Seq<Seq<char>>) -> Seq<Seq<char>> {
    items.map_values(|x: Seq<char>| prefix + x)
}

/// The items whose flag is set.
pub open spec fn flagged(items: Seq<Seq<char>>, flags: Seq<bool>) -> Seq<Seq<char>>
    decreases items.len(),
{
    if items.len() == 0 || flags.len() != items.len() {
        Seq::empty()
    } else {
        let f = flagged(items.drop_last(), flags.drop_last());
        if flags.last() {
            f.push(items.last())
        } else {
            f
        }
    }
}

fn text_of(parts: Vec<char>) -> (r: String)
    ensures
        r@ == parts@,
{
    string_from_chars(parts.as_slice())
}

fn line(s: &str) -> (r: String)
    ensures
        r@ == s@,
{
    string_from_chars(crate::text::chars_of(s).as_slice())
}

fn concat(a: &str, b: &str) -> (r: String)
    ensures
        r@ == a@ + b@,
{
    let mut v: Vec<char> = Vec::new();
    push_str(&mut v, a);
    push_str(&mut v, b);
    text_of(v)
}

fn push_bullets(out: &mut Vec<String>, prefix: &str, items: &[String])
    ensures
        strings_view(final(out)@) == strings_view(old(out)@) + bullets(prefix@, strings_view(items@)),
{
    let ghost start = strings_view(out@);
    let mut i: usize = 0;
    while i < items.len()
        invariant
            i <= items.len(),
            strings_view(out@) == start + bullets(prefix@, strings_view(items@).subrange(0, i as int)),
        decreases items.len() - i,
    {
        let ghost before = strings_view(out@);
        out.push(concat(prefix, items[i].as_str()));
        proof {
            assert(strings_view(items@).subrange(0, i + 1) =~= strings_view(items@).subrange(
                0,
                i as int,
            ).push(items@[i as int]@));
            assert(bullets(prefix@, strings_view(items@).subrange(0, i + 1)) =~= bullets(
                prefix@,
                strings_view(items@).subrange(0, i as int),
            ).push(prefix@ + items@[i as int]@));
            assert(strings_view(out@) =~= before.push(prefix@ + items@[i as int]@));
        }
        i = i + 1;
    }
    assert(strings_view(items@).subrange(0, items@.len() as int) =~= strings_view(items@));
}

// ---------------------------------------------------------------------------
// The final verdict
// ---------------------------------------------------------------------------

pub open spec fn summary_lines(
    failures: Seq<Seq<char>>,
    notes: Seq<Seq<char>>,
    deferred: bool,
    silent: bool,
) -> Seq<Seq<char>> {
    bullets("NOTE: "@, notes) + if failures.len() == 0 {
        if !silent {
            seq![
                Seq::empty(),
                "  卸载完成"@ + if deferred {
                    "（安装目录正在后台移除）"@
                } else {
                    Seq::empty()
                },
                "  已保留用户配置（如需一并删除请用 --purge）"@,
            ]
        } else {
            Seq::empty()
        }
    } else {
        seq![Seq::empty(), "  卸载未完全成功："@ + dec(failures.len()) + " 项失败"@] + bullets(
            "    - "@,
            failures,
        )
    }
}

/// The closing lines of a pass and its exit code: 0 when nothing failed, 1 otherwise.
pub fn summarize(ctx: &Context, failures: &[String], notes: &[String], deferred: bool) -> (r: (
    i32,
    Vec<String>,
))
    ensures
        r.0 == if failures.len() == 0 {
            0i32
        } else {
            1i32
        },
        strings_view(r.1@) == summary_lines(
            strings_view(failures@),
            strings_view(notes@),
            deferred,
            ctx.silent,
        ),
{
    let mut out: Vec<String> = Vec::new();
    push_bullets(&mut out, "NOTE: ", notes);
    let ghost head = strings_view(out@);
    if failures.len() == 0 {
        if !ctx.silent {
            out.push(String::new());
            if deferred {
                out.push(line("  卸载完成（安装目录正在后台移除）"));
            } else {
                out.push(line("  卸载完成"));
            }
            out.push(line("  已保留用户配置（如需一并删除请用 --purge）"));
            proof {
                let l2 = "  卸载完成"@ + if deferred {
                    "（安装目录正在后台移除）"@
                } else {
                    Seq::empty()
                };
                if deferred {
                    reveal_strlit("  卸载完成（安装目录正在后台移除）");
                    reveal_strlit("  卸载完成");
                    reveal_strlit("（安装目录正在后台移除）");
                    assert("  卸载完成（安装目录正在后台移除）"@ =~= l2);
                } else {
                    assert("  卸载完成"@ =~= l2);
                }
            }
        }
        assert(strings_view(out@) =~= summary_lines(
            strings_view(failures@),
            strings_view(notes@),
            deferred,
            ctx.silent,
        ));
        return (0, out);
    }
    out.push(String::new());
    let mut v: Vec<char> = Vec::new();
    push_str(&mut v, "  卸载未完全成功：");
    push_u64(&mut v, failures.len() as u64);
    push_str(&mut v, " 项失败");
    out.push(text_of(v));
    let ghost mid = strings_view(out@);
    push_bullets(&mut out, "    - ", failures);
    assert(strings_view(out@) =~= summary_lines(
        strings_view(failures@),
        strings_view(notes@),
        deferred,
        ctx.silent,
    ));
    (1, out)
}

// ---------------------------------------------------------------------------
// The install directory itself
// ---------------------------------------------------------------------------

/// What becomes of the install directory in the first pass.
#[derive(Debug, Clone, PartialEq)]
pub enum DirStep {
    /// A guard refuses it (the failure to report).
    Refuse(String),
    /// It holds entries that are not ours and stays (the note to print).
    Keep(String),
    /// A copy in `%TEMP%` deletes it in the second pass.
    Defer,
}

pub open spec fn refuse_dir_text(dir: Seq<char>) -> Seq<char> {
    "拒绝递归删除安装目录（受保护路径或缺少标记 "@ + MARKER_NAME@ + "）："@ + dir
}

pub open spec fn keep_dir_text(foreign: Seq<Seq<char>>) -> Seq<char> {
    "目录里还有 "@ + dec(foreign.len()) + " 项不属于本安装包的内容，已保留目录本身："@ + join_lines(
        foreign,
        ", "@,
    )
}


/// The first pass's decision on the install directory: refused unless it may
/// be deleted; kept when it holds entries that are not ours; otherwise handed
/// to the second pass.
pub fn dir_step(ctx: &Context, may_delete: bool, foreign: &[String]) -> (r: DirStep)
    ensures
        !may_delete ==> (r matches DirStep::Refuse(m) && m@ == refuse_dir_text(ctx.install_dir@)),
        may_delete && foreign.len() > 0 ==> (r matches DirStep::Keep(m) && m@ == keep_dir_text(
            strings_view(foreign@),
        )),
        may_delete && foreign.len() == 0 ==> r == DirStep::Defer,
{
    if !may_delete {
        let mut v: Vec<char> = Vec::new();
        push_str(&mut v, "拒绝递归删除安装目录（受保护路径或缺少标记 ");
        push_str(&mut v, MARKER_NAME);
        push_str(&mut v, "）：");
        push_str(&mut v, ctx.install_dir.as_str());
        return DirStep::Refuse(text_of(v));
    }
    if foreign.len() > 0 {
        let mut v: Vec<char> = Vec::new();
        push_str(&mut v, "目录里还有 ");
        push_u64(&mut v, foreign.len() as u64);
        push_str(&mut v, " 项不属于本安装包的内容，已保留目录本身：");
        push_joined(&mut v, foreign, ", ");
        return DirStep::Keep(text_of(v));
    }
    DirStep::Defer
}

/// What becomes of the user configuration folder (`%APPDATA%\DSHLauncher`).
#[derive(Debug, Clone, PartialEq)]
pub enum ConfigStep {
    /// `--purge`, and it exists: delete it.
    Delete,
    /// `--purge`, but there is nothing to delete (the line to print).
    Absent(String),
    /// Kept (the note that says where the settings stay and how to remove them).
    Keep(String),
    /// Kept, with nothing to say: it does not exist.
    Nothing,
}

pub open spec fn config_absent_text() -> Seq<char> {
    "用户配置不存在（无需删除）"@
}

pub open spec fn config_kept_text(roaming: Seq<char>) -> Seq<char> {
    "已保留用户配置："@ + join(roaming, "settings.toml"@) + "（如需一并删除，请用 --purge）"@
}

/// The decision on the user configuration: only `--purge` deletes it; without
/// it an existing configuration is kept, with a note naming its `settings.toml`.
pub fn config_step(purge: bool, exists: bool, roaming: &str) -> (r: ConfigStep)
    ensures
        purge && exists ==> r == ConfigStep::Delete,
        purge && !exists ==> (r matches ConfigStep::Absent(m) && m@ == config_absent_text()),
        !purge && exists ==> (r matches ConfigStep::Keep(m) && m@ == config_kept_text(roaming@)),
        !purge && !exists ==> r == ConfigStep::Nothing,
{
    if purge {
        if exists {
            ConfigStep::Delete
        } else {
            let mut v: Vec<char> = Vec::new();
            push_str(&mut v, "用户配置不存在（无需删除）");
            ConfigStep::Absent(text_of(v))
        }
    } else if exists {
        let settings = join_path(roaming, "settings.toml");
        let mut v: Vec<char> = Vec::new();
        push_str(&mut v, "已保留用户配置：");
        push_str(&mut v, settings.as_str());
        push_str(&mut v, "（如需一并删除，请用 --purge）");
        ConfigStep::Keep(text_of(v))
    } else {
        ConfigStep::Nothing
    }
}

/// The line once the user configuration is deleted.
pub fn config_removed_line(roaming: &str) -> (r: String)
    ensures
        r@ == "已删除用户配置 "@ + roaming@ + "（--purge）"@,
{
    let mut v: Vec<char> = Vec::new();
    push_str(&mut v, "已删除用户配置 ");
    push_str(&mut v, roaming);
    push_str(&mut v, "（--purge）");
    text_of(v)
}

/// The note once the second pass is on its way.
pub fn deferred_note(ctx: &Context) -> (r: String)
    ensures
        r@ == "安装目录的删除已交给后台副本（约 1 秒后移除）："@ + ctx.install_dir@,
{
    concat("安装目录的删除已交给后台副本（约 1 秒后移除）：", ctx.install_dir.as_str())
}

/// The second pass re-checks its guards: no marker or a protected path stops it
/// (with the message to report).
pub fn deferred_refusal(ctx: &Context, marker_present: bool, protected: bool) -> (r: Option<String>)
    ensures
        !marker_present ==> (r matches Some(m) && m@ == "延迟清理：安装标记 "@ + MARKER_NAME@
            + " 不存在，已跳过递归删除（"@ + ctx.install_dir@ + "）"@),
        marker_present && protected ==> (r matches Some(m) && m@ == "延迟清理：受保护路径，拒绝删除（"@
            + ctx.install_dir@ + "）"@),
        marker_present && !protected ==> r is None,
{
    let mut v: Vec<char> = Vec::new();
    if !marker_present {
        push_str(&mut v, "延迟清理：安装标记 ");
        push_str(&mut v, MARKER_NAME);
        push_str(&mut v, " 不存在，已跳过递归删除（");
        push_str(&mut v, ctx.install_dir.as_str());
        push_str(&mut v, "）");
        return Some(text_of(v));
    }
    if protected {
        push_str(&mut v, "延迟清理：受保护路径，拒绝删除（");
        push_str(&mut v, ctx.install_dir.as_str());
        push_str(&mut v, "）");
        return Some(text_of(v));
    }
    None
}

// ---------------------------------------------------------------------------
// The dry-run plan
// ---------------------------------------------------------------------------

/// What the file system and registry showed before a dry run.
#[derive(Debug, Clone)]
pub struct PlanFacts {
    /// For each planned file, whether it exists.
    pub present: Vec<bool>,
    /// The uninstall registry key exists.
    pub key_exists: bool,
    /// The desktop shortcuts that would go.
    pub shortcuts: Vec<String>,
    /// `%LOCALAPPDATA%\DSHLauncher`.
    pub local_dir: String,
    pub local_exists: bool,
    /// `%APPDATA%\DSHLauncher`.
    pub roaming_dir: String,
    /// Entries of the install directory that are not ours.
    pub foreign: Vec<String>,
    /// The install directory is a protected path.
    pub protected: bool,
}

pub open spec fn dir_action_text(protected: bool, foreign_count: nat) -> Seq<char> {
    if protected {
        "护栏拒绝递归删除（受保护路径）"@
    } else if foreign_count == 0 {
        "递归删除（由后台副本执行，约 1 秒后）"@
    } else {
        "保留目录（含有不属于本安装包的内容）"@
    }
}

pub open spec fn plan_lines(ctx: Context, planned: Seq<Seq<char>>, f: PlanFacts, deferred: bool) -> Seq<Seq<char>> {
    let present = flagged(planned, f.present@);
    if ctx.silent {
        Seq::empty()
    } else {
        seq![
            "DRY-RUN：卸载影响范围（不会修改任何内容）"@,
            "  安装目录            : "@ + ctx.install_dir@,
            "  安装标记            : "@ + ctx.marker@ + "（已具备）"@,
            "  将删除的安装文件    : "@ + dec(planned.len()) + " 个（其中存在 "@ + dec(present.len())
                + " 个）"@,
        ] + (if !deferred {
            seq!["      （正在运行的 dsh-uninstall.exe 由后台副本在第二阶段删除）"@]
        } else {
            Seq::empty()
        }) + bullets("      - "@, present) + seq![
            "  注册表卸载项        : HKCU\\"@ + UNINSTALL_KEY@ + " → "@ + (if f.key_exists {
                "存在，将被删除"@
            } else {
                "不存在"@
            }),
            "  桌面快捷方式        : "@ + dec(f.shortcuts@.len()) + " 个将被删除"@,
        ] + bullets("      - "@, strings_view(f.shortcuts@)) + seq![
            "  运行期数据          : "@ + f.local_dir@ + " → "@ + (if f.local_exists {
                "存在，将被删除（日志 / WebView2 profile / service.json）"@
            } else {
                "不存在"@
            }),
            "  用户配置            : "@ + f.roaming_dir@ + " → "@ + (if ctx.purge {
                "将被删除（--purge）"@
            } else {
                "**保留**（默认）"@
            }),
            "  安装目录本身        : "@ + dir_action_text(f.protected, f.foreign@.len()),
        ] + bullets("      - 外来项目："@, strings_view(f.foreign@)) + seq![
            "DRY-RUN：以上为完整影响范围；未改动任何内容，也未校验卸载后置条件。"@,
        ]
    }
}

fn flagged_strings(items: &[String], flags: &[bool]) -> (r: Vec<String>)
    requires
        items.len() == flags.len(),
    ensures
        strings_view(r@) == flagged(strings_view(items@), flags@),
{
    let mut out: Vec<String> = Vec::new();
    let mut i: usize = 0;
    while i < items.len()
        invariant
            i <= items.len() == flags.len(),
            strings_view(out@) == flagged(
                strings_view(items@).subrange(0, i as int),
                flags@.subrange(0, i as int),
            ),
        decreases items.len() - i,
    {
        assert(strings_view(items@).subrange(0, i + 1).drop_last() =~= strings_view(
            items@,
        ).subrange(0, i as int));
        assert(flags@.subrange(0, i + 1).drop_last() =~= flags@.subrange(0, i as int));
        if flags[i] {
            let ghost before = strings_view(out@);
            out.push(items[i].clone());
            assert(strings_view(out@) =~= before.push(items@[i as int]@));
        }
        i = i + 1;
    }
    assert(strings_view(items@).subrange(0, items@.len() as int) =~= strings_view(items@));
    assert(flags@.subrange(0, flags@.len() as int) =~= flags@);
    out
}

/// The dry-run report: the whole reach of an uninstall, changing nothing.
/// `planned` is the context's file list and `facts.present` says which exist.
pub fn plan_report(ctx: &Context, planned: &[String], facts: &PlanFacts) -> (r: Vec<String>)
    requires
        planned.len() == facts.present.len(),
    ensures
        strings_view(r@) == plan_lines(
            *ctx,
            strings_view(planned@),
            *facts,
            !same_path_spec(ctx.self_exe@, join(ctx.install_dir@, SELF_NAME@), opt_string(ctx.cwd)),
        ),
{
    let mut out: Vec<String> = Vec::new();
    if ctx.silent {
        return out;
    }
    let deferred = ctx.is_deferred_pass();
    let present = flagged_strings(planned, facts.present.as_slice());
    let ghost pv = strings_view(present@);
    out.push(line("DRY-RUN：卸载影响范围（不会修改任何内容）"));
    out.push(concat("  安装目录            : ", ctx.install_dir.as_str()));
    let mut v: Vec<char> = Vec::new();
    push_str(&mut v, "  安装标记            : ");
    push_str(&mut v, ctx.marker.as_str());
    push_str(&mut v, "（已具备）");
    assert(v@ =~= "  安装标记            : "@ + ctx.marker@ + "（已具备）"@);
    out.push(text_of(v));
    let mut w: Vec<char> = Vec::new();
    push_str(&mut w, "  将删除的安装文件    : ");
    push_u64(&mut w, planned.len() as u64);
    push_str(&mut w, " 个（其中存在 ");
    push_u64(&mut w, present.len() as u64);
    push_str(&mut w, " 个）");
    assert(w@ =~= "  将删除的安装文件    : "@ + dec(planned@.len()) + " 个（其中存在 "@ + dec(pv.len())
        + " 个）"@);
    out.push(text_of(w));
    let ghost e0 = seq![
        "DRY-RUN：卸载影响范围（不会修改任何内容）"@,
        "  安装目录            : "@ + ctx.install_dir@,
        "  安装标记            : "@ + ctx.marker@ + "（已具备）"@,
        "  将删除的安装文件    : "@ + dec(planned@.len()) + " 个（其中存在 "@ + dec(pv.len()) + " 个）"@,
    ];
    assert(strings_view(out@) =~= e0);
    if !deferred {
        out.push(line("      （正在运行的 dsh-uninstall.exe 由后台副本在第二阶段删除）"));
    }
    let ghost e1 = e0 + (if !deferred {
        seq!["      （正在运行的 dsh-uninstall.exe 由后台副本在第二阶段删除）"@]
    } else {
        Seq::<Seq<char>>::empty()
    });
    assert(strings_view(out@) =~= e1);
    push_bullets(&mut out, "      - ", present.as_slice());
    let ghost e2 = e1 + bullets("      - "@, pv);
    assert(strings_view(out@) == e2);
    let mut k: Vec<char> = Vec::new();
    push_str(&mut k, "  注册表卸载项        : HKCU\\");
    push_str(&mut k, UNINSTALL_KEY);
    push_str(&mut k, " → ");
    if facts.key_exists {
        push_str(&mut k, "存在，将被删除");
    } else {
        push_str(&mut k, "不存在");
    }
    let ghost kl = "  注册表卸载项        : HKCU\\"@ + UNINSTALL_KEY@ + " → "@ + (if facts.key_exists {
        "存在，将被删除"@
    } else {
        "不存在"@
    });
    assert(k@ =~= kl);
    out.push(text_of(k));
    let mut sc: Vec<char> = Vec::new();
    push_str(&mut sc, "  桌面快捷方式        : ");
    push_u64(&mut sc, facts.shortcuts.len() as u64);
    push_str(&mut sc, " 个将被删除");
    let ghost sl = "  桌面快捷方式        : "@ + dec(facts.shortcuts@.len()) + " 个将被删除"@;
    assert(sc@ =~= sl);
    out.push(text_of(sc));
    let ghost e3 = e2 + seq![kl, sl];
    assert(strings_view(out@) =~= e3);
    push_bullets(&mut out, "      - ", facts.shortcuts.as_slice());
    let ghost e4 = e3 + bullets("      - "@, strings_view(facts.shortcuts@));
    assert(strings_view(out@) == e4);
    let mut l: Vec<char> = Vec::new();
    push_str(&mut l, "  运行期数据          : ");
    push_str(&mut l, facts.local_dir.as_str());
    push_str(&mut l, " → ");
    if facts.local_exists {
        push_str(&mut l, "存在，将被删除（日志 / WebView2 profile / service.json）");
    } else {
        push_str(&mut l, "不存在");
    }
    let ghost ll = "  运行期数据          : "@ + facts.local_dir@ + " → "@ + (if facts.local_exists {
        "存在，将被删除（日志 / WebView2 profile / service.json）"@
    } else {
        "不存在"@
    });
    assert(l@ =~= ll);
    out.push(text_of(l));
    let mut u: Vec<char> = Vec::new();
    push_str(&mut u, "  用户配置            : ");
    push_str(&mut u, facts.roaming_dir.as_str());
    push_str(&mut u, " → ");
    if ctx.purge {
        push_str(&mut u, "将被删除（--purge）");
    } else {
        push_str(&mut u, "**保留**（默认）");
    }
    let ghost ul = "  用户配置            : "@ + facts.roaming_dir@ + " → "@ + (if ctx.purge {
        "将被删除（--purge）"@
    } else {
        "**保留**（默认）"@
    });
    assert(u@ =~= ul);
    out.push(text_of(u));
    let mut d: Vec<char> = Vec::new();
    push_str(&mut d, "  安装目录本身        : ");
    if facts.protected {
        push_str(&mut d, "护栏拒绝递归删除（受保护路径）");
    } else if facts.foreign.len() == 0 {
        push_str(&mut d, "递归删除（由后台副本执行，约 1 秒后）");
    } else {
        push_str(&mut d, "保留目录（含有不属于本安装包的内容）");
    }
    let ghost dl = "  安装目录本身        : "@ + dir_action_text(facts.protected, facts.foreign@.len());
    assert(d@ =~= dl);
    out.push(text_of(d));
    let ghost e5 = e4 + seq![ll, ul, dl];
    assert(strings_view(out@) =~= e5);
    push_bullets(&mut out, "      - 外来项目：", facts.foreign.as_slice());
    let ghost e6 = e5 + bullets("      - 外来项目："@, strings_view(facts.foreign@));
    assert(strings_view(out@) == e6);
    out.push(line("DRY-RUN：以上为完整影响范围；未改动任何内容，也未校验卸载后置条件。"));
    let ghost e7 = e6 + seq!["DRY-RUN：以上为完整影响范围；未改动任何内容，也未校验卸载后置条件。"@];
    assert(strings_view(out@) =~= e7);
    assert(e7 == plan_lines(*ctx, strings_view(planned@), *facts, deferred));
    out
}

// ---------------------------------------------------------------------------
// Residue clean-up
// ---------------------------------------------------------------------------

pub open spec fn residue_absent_text() -> Seq<char> {
    "没有注册表残留（HKCU\\"@ + UNINSTALL_KEY@ + " 不存在），无需清理。"@
}

/// The line printed when there is no registry residue at all.
pub fn residue_absent_line() -> (r: String)
    ensures
        r@ == residue_absent_text(),
{
    let mut v: Vec<char> = Vec::new();
    push_str(&mut v, "没有注册表残留（HKCU\\");
    push_str(&mut v, UNINSTALL_KEY);
    push_str(&mut v, " 不存在），无需清理。");
    text_of(v)
}

/// Where the residue clean-up (`--clean-residue`) goes once the registry and
/// its guards have been consulted. It touches at most the uninstall key and
/// the desktop shortcuts: no variant removes a folder, the user configuration
/// or the runtime data (`--purge` is ignored here).
#[derive(Debug, Clone, PartialEq)]
pub enum ResidueRoute {
    /// No uninstall key: nothing to clean (the line to print).
    NothingToClean(String),
    /// The registry values or the directory guards refuse (the message to print).
    Refuse(String),
    /// A dry run: the plan is reported and nothing changes.
    ReportOnly,
    /// Remove the uninstall key and the desktop shortcuts.
    RemoveKeyAndShortcuts,
}

impl ResidueRoute {
    /// The exit code where the route itself decides it: 0 with nothing to
    /// clean or after a dry run, 2 on a refusal; after the removal it is
    /// decided by what was removed (see [`residue_run_lines`]).
    pub fn exit_code(&self) -> (r: Option<i32>)
        ensures
            r == match *self {
                ResidueRoute::NothingToClean(_) => Some(0i32),
                ResidueRoute::Refuse(_) => Some(2i32),
                ResidueRoute::ReportOnly => Some(0i32),
                ResidueRoute::RemoveKeyAndShortcuts => None::<i32>,
            },
    {
        match self {
            ResidueRoute::NothingToClean(_) => Some(0),
            ResidueRoute::Refuse(_) => Some(2),
            ResidueRoute::ReportOnly => Some(0),
            ResidueRoute::RemoveKeyAndShortcuts => None,
        }
    }
}

/// The route of the residue clean-up: with no uninstall key there is nothing
/// to clean; otherwise the target found from the registry values
/// (`residue_target_of`) and then the directory check (`residue_dir_allowed`)
/// may refuse, with their message; past both, a dry run only reports and a
/// real run removes the key and the shortcuts. The target is not read without
/// the key, nor the check without a target.
pub fn residue_route(key_present: bool, target: &Result<String, String>, dir_check: &Result<(), String>, dry_run: bool) -> (r: ResidueRoute)
    ensures
        !key_present ==> (r matches ResidueRoute::NothingToClean(m) && m@ == residue_absent_text()),
        key_present ==> match target {
            Err(e) => r matches ResidueRoute::Refuse(m) && m@ == e@,
            Ok(_) => match dir_check {
                Err(e) => r matches ResidueRoute::Refuse(m) && m@ == e@,
                Ok(_) => r == if dry_run {
                    ResidueRoute::ReportOnly
                } else {
                    ResidueRoute::RemoveKeyAndShortcuts
                },
            },
        },
{
    if !key_present {
        return ResidueRoute::NothingToClean(residue_absent_line());
    }
    match target {
        Err(e) => ResidueRoute::Refuse(e.clone()),
        Ok(_) => match dir_check {
            Err(e) => ResidueRoute::Refuse(e.clone()),
            Ok(_) => if dry_run {
                ResidueRoute::ReportOnly
            } else {
                ResidueRoute::RemoveKeyAndShortcuts
            },
        },
    }
}

pub open spec fn dir_state_text(dir_exists: bool) -> Seq<char> {
    if dir_exists {
        "目录仍在，但没有安装标记"@
    } else {
        "目录已不存在"@
    }
}

pub open spec fn residue_plan_spec(dir: Seq<char>, dir_exists: bool, shortcuts: Seq<Seq<char>>) -> Seq<Seq<char>> {
    seq![
        "DRY-RUN：残留清理范围（不会修改任何内容）"@,
        "  安装目录            : "@ + dir + "（"@ + dir_state_text(dir_exists) + "）"@,
        "  注册表卸载项        : HKCU\\"@ + UNINSTALL_KEY@ + " → 将被删除"@,
        "  桌面快捷方式        : "@ + dec(shortcuts.len()) + " 个将被删除"@,
    ] + bullets("      - "@, shortcuts) + seq![
        "  用户配置 / 运行期数据: **不处理**（本模式不做任何文件系统删除）"@,
        "DRY-RUN：以上为完整影响范围；未改动任何内容。"@,
    ]
}

/// The dry-run report of a residue clean-up.
pub fn residue_plan_lines(dir: &str, dir_exists: bool, shortcuts: &[String]) -> (r: Vec<String>)
    ensures
        strings_view(r@) == residue_plan_spec(dir@, dir_exists, strings_view(shortcuts@)),
{
    let mut out: Vec<String> = Vec::new();
    out.push(line("DRY-RUN：残留清理范围（不会修改任何内容）"));
    let mut v: Vec<char> = Vec::new();
    push_str(&mut v, "  安装目录            : ");
    push_str(&mut v, dir);
    push_str(&mut v, "（");
    if dir_exists {
        push_str(&mut v, "目录仍在，但没有安装标记");
    } else {
        push_str(&mut v, "目录已不存在");
    }
    push_str(&mut v, "）");
    assert(v@ =~= "  安装目录            : "@ + dir@ + "（"@ + dir_state_text(dir_exists) + "）"@);
    out.push(text_of(v));
    let mut k: Vec<char> = Vec::new();
    push_str(&mut k, "  注册表卸载项        : HKCU\\");
    push_str(&mut k, UNINSTALL_KEY);
    push_str(&mut k, " → 将被删除");
    assert(k@ =~= "  注册表卸载项        : HKCU\\"@ + UNINSTALL_KEY@ + " → 将被删除"@);
    out.push(text_of(k));
    let mut s: Vec<char> = Vec::new();
    push_str(&mut s, "  桌面快捷方式        : ");
    push_u64(&mut s, shortcuts.len() as u64);
    push_str(&mut s, " 个将被删除");
    assert(s@ =~= "  桌面快捷方式        : "@ + dec(shortcuts@.len()) + " 个将被删除"@);
    out.push(text_of(s));
    let ghost e0 = seq![
        "DRY-RUN：残留清理范围（不会修改任何内容）"@,
        "  安装目录            : "@ + dir@ + "（"@ + dir_state_text(dir_exists) + "）"@,
        "  注册表卸载项        : HKCU\\"@ + UNINSTALL_KEY@ + " → 将被删除"@,
        "  桌面快捷方式        : "@ + dec(shortcuts@.len()) + " 个将被删除"@,
    ];
    assert(strings_view(out@) =~= e0);
    push_bullets(&mut out, "      - ", shortcuts);
    let ghost e1 = e0 + bullets("      - "@, strings_view(shortcuts@));
    assert(strings_view(out@) == e1);
    out.push(line("  用户配置 / 运行期数据: **不处理**（本模式不做任何文件系统删除）"));
    out.push(line("DRY-RUN：以上为完整影响范围；未改动任何内容。"));
    let ghost e2 = e1 + seq![
        "  用户配置 / 运行期数据: **不处理**（本模式不做任何文件系统删除）"@,
        "DRY-RUN：以上为完整影响范围；未改动任何内容。"@,
    ];
    assert(strings_view(out@) =~= e2);
    out
}

pub open spec fn when_loud(silent: bool, lines: Seq<Seq<char>>) -> Seq<Seq<char>> {
    if silent {
        Seq::empty()
    } else {
        lines
    }
}

pub open spec fn residue_run_spec(
    silent: bool,
    purge: bool,
    dir: Seq<char>,
    dir_existed: bool,
    key_removed: bool,
    removed: Seq<Seq<char>>,
    dir_exists_after: bool,
) -> Seq<Seq<char>> {
    when_loud(
        silent,
        seq!["DSHLauncher 残留清理 —— 安装目录："@ + dir + "（"@ + dir_state_text(dir_existed) + "）"@],
    ) + when_loud(
        silent || !purge,
        seq!["NOTE: 残留清理模式不处理用户配置（--purge 被忽略）；如需删除配置请重装后走正规卸载。"@],
    ) + when_loud(silent || !key_removed, seq!["已移除注册表卸载项"@]) + when_loud(
        silent,
        if removed.len() == 0 {
            seq!["没有需要移除的桌面快捷方式"@]
        } else {
            bullets("已移除快捷方式 "@, removed)
        },
    ) + when_loud(
        silent || !dir_exists_after,
        seq!["NOTE: 安装目录仍然存在，本模式未删除任何文件："@ + dir],
    ) + if key_removed {
        when_loud(silent, seq![Seq::empty(), "  残留清理完成（未删除任何文件或目录）"@])
    } else {
        seq![
            Seq::empty(),
            "  残留清理未完全成功：1 项失败"@,
            "    - 删除注册表项失败或未生效：HKCU\\"@ + UNINSTALL_KEY@,
        ]
    }
}

/// The report of a residue clean-up run and its exit code: the registry key
/// is the one step that can fail.
pub fn residue_run_lines(
    silent: bool,
    purge: bool,
    dir: &str,
    dir_existed: bool,
    key_removed: bool,
    removed: &[String],
    dir_exists_after: bool,
) -> (r: (i32, Vec<String>))
    ensures
        r.0 == if key_removed {
            0i32
        } else {
            1i32
        },
        strings_view(r.1@) == residue_run_spec(
            silent,
            purge,
            dir@,
            dir_existed,
            key_removed,
            strings_view(removed@),
            dir_exists_after,
        ),
{
    let mut out: Vec<String> = Vec::new();
    let ghost l1 = "DSHLauncher 残留清理 —— 安装目录："@ + dir@ + "（"@ + dir_state_text(dir_existed) + "）"@;
    if !silent {
        let mut v: Vec<char> = Vec::new();
        push_str(&mut v, "DSHLauncher 残留清理 —— 安装目录：");
        push_str(&mut v, dir);
        push_str(&mut v, "（");
        if dir_existed {
            push_str(&mut v, "目录仍在，但没有安装标记");
        } else {
            push_str(&mut v, "目录已不存在");
        }
        push_str(&mut v, "）");
        assert(v@ =~= l1);
        out.push(text_of(v));
    }
    let ghost e0 = when_loud(silent, seq![l1]);
    assert(strings_view(out@) =~= e0);
    if !silent && purge {
        out.push(line("NOTE: 残留清理模式不处理用户配置（--purge 被忽略）；如需删除配置请重装后走正规卸载。"));
    }
    let ghost e1 = e0 + when_loud(
        silent || !purge,
        seq!["NOTE: 残留清理模式不处理用户配置（--purge 被忽略）；如需删除配置请重装后走正规卸载。"@],
    );
    assert(strings_view(out@) =~= e1);
    if !silent && key_removed {
        out.push(line("已移除注册表卸载项"));
    }
    let ghost e2 = e1 + when_loud(silent || !key_removed, seq!["已移除注册表卸载项"@]);
    assert(strings_view(out@) =~= e2);
    if !silent {
        if removed.len() == 0 {
            out.push(line("没有需要移除的桌面快捷方式"));
        } else {
            push_bullets(&mut out, "已移除快捷方式 ", removed);
        }
    }
    let ghost e3 = e2 + when_loud(
        silent,
        if removed@.len() == 0 {
            seq!["没有需要移除的桌面快捷方式"@]
        } else {
            bullets("已移除快捷方式 "@, strings_view(removed@))
        },
    );
    assert(strings_view(out@) =~= e3);
    if !silent && dir_exists_after {
        out.push(concat("NOTE: 安装目录仍然存在，本模式未删除任何文件：", dir));
    }
    let ghost e4 = e3 + when_loud(
        silent || !dir_exists_after,
        seq!["NOTE: 安装目录仍然存在，本模式未删除任何文件："@ + dir@],
    );
    assert(strings_view(out@) =~= e4);
    let code: i32 = if key_removed {
        if !silent {
            out.push(String::new());
            out.push(line("  残留清理完成（未删除任何文件或目录）"));
        }
        0
    } else {
        out.push(String::new());
        out.push(line("  残留清理未完全成功：1 项失败"));
        let mut f: Vec<char> = Vec::new();
        push_str(&mut f, "    - 删除注册表项失败或未生效：HKCU\\");
        push_str(&mut f, UNINSTALL_KEY);
        assert(f@ =~= "    - 删除注册表项失败或未生效：HKCU\\"@ + UNINSTALL_KEY@);
        out.push(text_of(f));
        1
    };
    let ghost e5 = e4 + if key_removed {
        when_loud(silent, seq![Seq::<char>::empty(), "  残留清理完成（未删除任何文件或目录）"@])
    } else {
        seq![
            Seq::<char>::empty(),
            "  残留清理未完全成功：1 项失败"@,
            "    - 删除注册表项失败或未生效：HKCU\\"@ + UNINSTALL_KEY@,
        ]
    };
    assert(strings_view(out@) =~= e5);
    (code, out)
}

} // verus!
