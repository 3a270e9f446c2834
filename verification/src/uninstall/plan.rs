//! The uninstall plan: the install directory, the payload list, the marker,
//! and which files are ours.
use vstd::prelude::*;

use crate::paths::{join, join_path};
use crate::text::{chars_of, contains, contains_str, debug_quoted, debug_str, push_str, slice_to_vec, string_from_chars};
use crate::uninstall::args::Args;
use crate::uninstall::guards::{is_protected_root, is_protected_spec, opt_str, strs_view};
use crate::winpath::{
    is_absolute, is_absolute_path, normalize, normalize_path, parent_of, same_path,
    same_path_spec, split_file_name_chars,
};
use crate::{APP_NAME, PRODUCT_NAME};

verus! {

/// The install marker. Nothing is deleted unless it is present: it tells an
/// installed copy from a source tree or a portable directory.
pub const MARKER_NAME: &'static str = ".dsllauncher-install";

/// The suffix of the installer's staging copies.
pub const TMP_SUFFIX: &'static str = ".tmp";

/// The uninstaller's own file name (the first pass skips it).
pub const SELF_NAME: &'static str = "dsh-uninstall.exe";

/// The files the package installs (the marker aside), as the installer lists them.
pub open spec fn payload_names() -> Seq<Seq<char>> {
    seq![
        "DSHLauncher.exe"@,
        "dsh-uninstall.exe"@,
        "app.ico"@,
        "README.md"@,
        "MAINTENANCE.zh.md"@,
        "MAINTENANCE.en.md"@,
    ]
}

/// The script uninstallers an older version left behind: still ours to remove.
pub open spec fn legacy_payload_names() -> Seq<Seq<char>> {
    seq!["uninstall.cmd"@, "uninstall.ps1"@]
}

/// The payload list.
pub fn payloads() -> (r: Vec<&'static str>)
    ensures
        strs_view(r@) == payload_names(),
{
    let r = vec![
        "DSHLauncher.exe",
        "dsh-uninstall.exe",
        "app.ico",
        "README.md",
        "MAINTENANCE.zh.md",
        "MAINTENANCE.en.md",
    ];
    assert(strs_view(r@) =~= payload_names());
    r
}

/// The legacy payload list.
pub fn legacy_payloads() -> (r: Vec<&'static str>)
    ensures
        strs_view(r@) == legacy_payload_names(),
{
    let r = vec!["uninstall.cmd", "uninstall.ps1"];
    assert(strs_view(r@) =~= legacy_payload_names());
    r
}

/// The marker's content proves the directory is ours: it names the app
/// (`DSHLauncher`) or the product (`DeepSeek Harness Launcher`).
pub open spec fn marker_is_ours_spec(content: Seq<char>) -> bool {
    contains(content, APP_NAME@) || contains(content, PRODUCT_NAME@)
}

pub fn marker_is_ours(content: &str) -> (r: bool)
    ensures
        r == marker_is_ours_spec(content@),
{
    contains_str(content, APP_NAME) || contains_str(content, PRODUCT_NAME)
}

/// The context of both passes.
#[derive(Debug, Clone)]
pub struct Context {
    /// The install directory (the program's own, or the second pass's checked target).
    pub install_dir: String,
    /// The marker's path.
    pub marker: String,
    /// Also delete the user's settings.
    pub purge: bool,
    /// Print problems only.
    pub silent: bool,
    /// Report only.
    pub dry_run: bool,
    /// The running uninstaller's path.
    pub self_exe: String,
    /// The working directory against which relative paths are read.
    pub cwd: Option<String>,
}

pub open spec fn opt_string(o: Option<String>) -> Option<Seq<char>> {
    match o {
        Some(s) => Some(s@),
        None => None,
    }
}

/// The directory the uninstaller runs from, normalised (its install
/// directory's normal form when the program path has no parent).
pub open spec fn own_dir_spec(install_dir: Seq<char>, self_exe: Seq<char>, cwd: Option<Seq<char>>) -> Seq<char> {
    match parent_of(self_exe) {
        Some(p) => normalize_path(p, cwd),
        None => normalize_path(install_dir, cwd),
    }
}

/// The target of a pass: the second pass deletes the directory it is given,
/// never the one it runs from; the first pass its own directory.
pub open spec fn target_spec(install_dir: Seq<char>, args: Args, self_exe: Seq<char>, cwd: Option<Seq<char>>) -> Result<
    Seq<char>,
    Seq<char>,
> {
    if args.deferred_pass {
        match args.deferred_dir {
            None => Err("第二阶段缺少目标目录（--deferred-pass <dir>）"@),
            Some(want) => {
                let full = normalize_path(want@, cwd);
                if same_path_spec(full, own_dir_spec(install_dir, self_exe, cwd), cwd) {
                    Err("第二阶段目标目录与本程序所在目录相同，拒绝执行："@ + debug_str(full))
                } else {
                    Ok(full)
                }
            },
        }
    } else {
        Ok(normalize_path(install_dir, cwd))
    }
}

pub open spec fn admission_spec(ctx: Context, source_tree: bool, marker_present: bool, content: Seq<char>) -> Result<
    (),
    Seq<char>,
> {
    if !is_absolute_path(ctx.install_dir@) {
        Err("安装目录不是绝对路径，拒绝执行："@ + debug_str(ctx.install_dir@))
    } else if source_tree {
        Err("这是源码树/开发目录（存在 Cargo.toml 或 crates\\），不是安装副本 —— 已拒绝执行。\n目录："@
            + ctx.install_dir@ + "\n要卸载真正安装的副本，请运行**安装目录里**的 "@ + SELF_NAME@
            + "（例如 %LOCALAPPDATA%\\Programs\\"@ + APP_NAME@ + "）。"@)
    } else if !marker_present {
        Err("未找到安装标记 "@ + ctx.marker@ + " —— 为安全起见拒绝执行任何删除。\n目录："@ + ctx.install_dir@)
    } else if !marker_is_ours_spec(content) {
        Err("安装标记 "@ + ctx.marker@ + " 的内容不属于 "@ + PRODUCT_NAME@ + "（内容："@ + debug_str(
            content.subrange(0, if content.len() < 40 { content.len() as int } else { 40 }),
        ) + "）—— 拒绝执行任何删除。"@)
    } else {
        Ok(())
    }
}

/// One payload (or legacy payload) and its staging copy, in the install directory.
pub open spec fn pair_paths(dir: Seq<char>, name: Seq<char>) -> Seq<Seq<char>> {
    seq![join(dir, name), join(dir, name + TMP_SUFFIX@)]
}

/// The files a pass removes: every payload and legacy payload with its staging
/// copy, in list order, the uninstaller itself skipped unless `with_self`.
pub open spec fn files_spec(dir: Seq<char>, names: Seq<Seq<char>>, with_self: bool) -> Seq<Seq<char>>
    decreases names.len(),
{
    if names.len() == 0 {
        Seq::empty()
    } else {
        let f = files_spec(dir, names.drop_last(), with_self);
        if !with_self && names.last() == SELF_NAME@ {
            f
        } else {
            f + pair_paths(dir, names.last())
        }
    }
}

fn text_of(parts: Vec<char>) -> (r: String)
    ensures
        r@ == parts@,
{
    string_from_chars(parts.as_slice())
}

impl Context {
    /// Resolves the target directory of a pass and builds the context (its
    /// admission is checked separately, against the file system).
    pub fn resolve(install_dir: &str, args: &Args, self_exe: &str, cwd: Option<&str>) -> (r: Result<
        Context,
        String,
    >)
        ensures
            match r {
                Ok(c) => target_spec(install_dir@, *args, self_exe@, opt_str(cwd)) == Ok::<
                    Seq<char>,
                    Seq<char>,
                >(c.install_dir@) && c.marker@ == join(c.install_dir@, MARKER_NAME@) && c.purge
                    == args.purge && c.silent == args.silent && c.dry_run == args.dry_run
                    && c.self_exe@ == self_exe@ && opt_string(c.cwd) == opt_str(cwd),
                Err(e) => target_spec(install_dir@, *args, self_exe@, opt_str(cwd)) == Err::<
                    Seq<char>,
                    Seq<char>,
                >(e@),
            },
    {
        let own = normalize(install_dir, cwd);
        let sv = chars_of(self_exe);
        let own_dir: String = match split_file_name_chars(sv.as_slice()) {
            Some((k, _e)) => {
                let p = string_from_chars(slice_to_vec(sv.as_slice(), 0, k).as_slice());
                normalize(p.as_str(), cwd)
            },
            None => normalize(install_dir, cwd),
        };
        assert(own_dir@ == own_dir_spec(install_dir@, self_exe@, opt_str(cwd)));
        let target: String = if args.deferred_pass {
            let want = match &args.deferred_dir {
                Some(w) => w,
                None => {
                    let m = string_from_chars(chars_of("第二阶段缺少目标目录（--deferred-pass <dir>）").as_slice());
                    return Err(m);
                },
            };
            let full = normalize(want.as_str(), cwd);
            if same_path(full.as_str(), own_dir.as_str(), cwd) {
                let mut m: Vec<char> = Vec::new();
                push_str(&mut m, "第二阶段目标目录与本程序所在目录相同，拒绝执行：");
                let d = debug_quoted(full.as_str());
                push_str(&mut m, d.as_str());
                return Err(text_of(m));
            }
            full
        } else {
            own
        };
        let marker = join_path(target.as_str(), MARKER_NAME);
        let cwd_owned: Option<String> = match cwd {
            Some(c) => Some(string_from_chars(chars_of(c).as_slice())),
            None => None,
        };
        Ok(Context {
            install_dir: target,
            marker,
            purge: args.purge,
            silent: args.silent,
            dry_run: args.dry_run,
            self_exe: string_from_chars(sv.as_slice()),
            cwd: cwd_owned,
        })
    }

    /// The admission check, before any deletion: an absolute directory, no
    /// source tree, the marker present, and its content ours.
    pub fn check_admission(&self, source_tree: bool, marker_present: bool, marker_content: &str) -> (r:
        Result<(), String>)
        ensures
            match r {
                Ok(()) => admission_spec(*self, source_tree, marker_present, marker_content@) == Ok::<
                    (),
                    Seq<char>,
                >(()),
                Err(e) => admission_spec(*self, source_tree, marker_present, marker_content@) == Err::<
                    (),
                    Seq<char>,
                >(e@),
            },
    {
        let mut m: Vec<char> = Vec::new();
        if !is_absolute(self.install_dir.as_str()) {
            push_str(&mut m, "安装目录不是绝对路径，拒绝执行：");
            let d = debug_quoted(self.install_dir.as_str());
            push_str(&mut m, d.as_str());
            return Err(text_of(m));
        }
        if source_tree {
            push_str(&mut m, "这是源码树/开发目录（存在 Cargo.toml 或 crates\\），不是安装副本 —— 已拒绝执行。\n目录：");
            push_str(&mut m, self.install_dir.as_str());
            push_str(&mut m, "\n要卸载真正安装的副本，请运行**安装目录里**的 ");
            push_str(&mut m, SELF_NAME);
            push_str(&mut m, "（例如 %LOCALAPPDATA%\\Programs\\");
            push_str(&mut m, APP_NAME);
            push_str(&mut m, "）。");
            return Err(text_of(m));
        }
        if !marker_present {
            push_str(&mut m, "未找到安装标记 ");
            push_str(&mut m, self.marker.as_str());
            push_str(&mut m, " —— 为安全起见拒绝执行任何删除。\n目录：");
            push_str(&mut m, self.install_dir.as_str());
            return Err(text_of(m));
        }
        if !marker_is_ours(marker_content) {
            let cv = chars_of(marker_content);
            let n: usize = if cv.len() < 40 {
                cv.len()
            } else {
                40
            };
            let head = string_from_chars(slice_to_vec(cv.as_slice(), 0, n).as_slice());
            assert(head@ =~= marker_content@.subrange(
                0,
                if marker_content@.len() < 40 {
                    marker_content@.len() as int
                } else {
                    40
                },
            ));
            push_str(&mut m, "安装标记 ");
            push_str(&mut m, self.marker.as_str());
            push_str(&mut m, " 的内容不属于 ");
            push_str(&mut m, PRODUCT_NAME);
            push_str(&mut m, "（内容：");
            let d = debug_quoted(head.as_str());
            push_str(&mut m, d.as_str());
            push_str(&mut m, "）—— 拒绝执行任何删除。");
            return Err(text_of(m));
        }
        Ok(())
    }

    /// The directory itself may go recursively: the marker is present and the
    /// directory is not protected.
    pub fn may_delete_dir_itself(&self, marker_present: bool, env_dirs: &[String]) -> (r: bool)
        ensures
            r == (marker_present && !is_protected_spec(
                self.install_dir@,
                crate::text::strings_view(env_dirs@),
                opt_string(self.cwd),
            )),
    {
        let cwd: Option<&str> = match &self.cwd {
            Some(c) => Some(c.as_str()),
            None => None,
        };
        marker_present && !is_protected_root(self.install_dir.as_str(), env_dirs, cwd)
    }

    /// Whether this is the second pass: the uninstaller runs from outside the
    /// install directory (a copy in `%TEMP%`).
    pub fn is_deferred_pass(&self) -> (r: bool)
        ensures
            r == !same_path_spec(
                self.self_exe@,
                join(self.install_dir@, SELF_NAME@),
                opt_string(self.cwd),
            ),
    {
        let cwd: Option<&str> = match &self.cwd {
            Some(c) => Some(c.as_str()),
            None => None,
        };
        let own_copy = join_path(self.install_dir.as_str(), SELF_NAME);
        !same_path(self.self_exe.as_str(), own_copy.as_str(), cwd)
    }

    /// The files to remove, with their staging copies; the first pass skips
    /// the running uninstaller; the marker is handled by its own step.
    pub fn files_to_remove(&self) -> (r: Vec<String>)
        ensures
            crate::text::strings_view(r@) == files_spec(
                self.install_dir@,
                payload_names() + legacy_payload_names(),
                !same_path_spec(
                    self.self_exe@,
                    join(self.install_dir@, SELF_NAME@),
                    opt_string(self.cwd),
                ),
            ),
    {
        let with_self = self.is_deferred_pass();
        let p = payloads();
        let l = legacy_payloads();
        let ghost names = payload_names() + legacy_payload_names();
        let total = p.len() + l.len();
        let mut out: Vec<String> = Vec::new();
        let mut k: usize = 0;
        while k < total
            invariant
                k <= total == p.len() + l.len(),
                strs_view(p@) == payload_names(),
                strs_view(l@) == legacy_payload_names(),
                names == payload_names() + legacy_payload_names(),
                crate::text::strings_view(out@) == files_spec(
                    self.install_dir@,
                    names.subrange(0, k as int),
                    with_self,
                ),
            decreases total - k,
        {
            let name: &str = if k < p.len() {
                p[k]
            } else {
                l[k - p.len()]
            };
            proof {
                if k < p.len() {
                    assert(strs_view(p@)[k as int] == name@);
                } else {
                    assert(strs_view(l@)[k - p.len()] == name@);
                }
                assert(names[k as int] == name@);
                assert(names.subrange(0, k + 1).drop_last() =~= names.subrange(0, k as int));
            }
            let nv = chars_of(name);
            let is_self = crate::text::chars_eq_str(nv.as_slice(), SELF_NAME);
            if with_self || !is_self {
                let ghost before = out@;
                out.push(join_path(self.install_dir.as_str(), name));
                let mut tmp = chars_of(name);
                push_str(&mut tmp, TMP_SUFFIX);
                let tname = string_from_chars(tmp.as_slice());
                out.push(join_path(self.install_dir.as_str(), tname.as_str()));
                assert(crate::text::strings_view(out@) =~= crate::text::strings_view(before)
                    + pair_paths(self.install_dir@, name@));
            }
            k = k + 1;
        }
        assert(names.subrange(0, names.len() as int) =~= names);
        out
    }

    /// The install directory as shown to the user.
    pub fn display(&self) -> (r: String)
        ensures
            r@ == self.install_dir@,
    {
        self.install_dir.clone()
    }
}

} // verus!
