//! The uninstaller's guards.
//!
//! 1. a source tree is never taken for an installed copy;
//! 2. protected paths (drive roots, a bare drive such as `D:`, the system and
//!    user directories) are never deleted recursively;
//! 3. a directory holding anything that is not ours keeps the directory itself;
//! 4. residue clean-up needs the three uninstall registry values to agree.
use vstd::prelude::*;

use crate::dsh::token_end;
use crate::paths::join;
use crate::text::{
    all_ascii_digits, all_digits, chars_eq_ic, chars_eq_str, chars_of, is_whitespace, last_index,
    last_index_of, push_str, seq_eq_ic, slice_to_vec, sort_strings, string_from_chars,
    strings_view, texts_sorted, trim, trim_bounds, upto_char, upto_char_index,
};
use crate::uninstall::plan::{legacy_payload_names, payload_names, MARKER_NAME, SELF_NAME};
use crate::winpath::{
    is_absolute, is_absolute_path, normalize, normalize_path, same_path, same_path_spec,
    split_file_name, split_file_name_chars,
};

verus! {

/// The uninstall registry key (under `HKCU`), as the installer writes it.
pub const UNINSTALL_KEY: &'static str = "Software\\Microsoft\\Windows\\CurrentVersion\\Uninstall\\DSHLauncher";

pub open spec fn opt_str(o: Option<&str>) -> Option<Seq<char>> {
    match o {
        Some(s) => Some(s@),
        None => None,
    }
}

/// A bare drive such as `D:` (the current directory of that drive).
pub open spec fn is_bare_drive(s: Seq<char>) -> bool {
    s.len() == 2 && (('a' <= s[0] <= 'z') || ('A' <= s[0] <= 'Z')) && s[1] == ':'
}

/// Protected from recursive deletion: a bare drive or drive root, or one of
/// the system and user directories (`env_dirs`: the values of `WINDIR`,
/// `SystemRoot`, `ProgramFiles`, `ProgramFiles(x86)`, `ProgramData`,
/// `USERPROFILE`, `APPDATA`, `LOCALAPPDATA`, `TEMP` and `TMP` that are set).
pub open spec fn is_protected_spec(dir: Seq<char>, env_dirs: Seq<Seq<char>>, cwd: Option<Seq<char>>) -> bool {
    let p = normalize_path(dir, cwd);
    is_bare_drive(p) || exists|k: int|
        0 <= k < env_dirs.len() && normalize_path(env_dirs[k], cwd).len() > 0 && #[trigger] same_path_spec(
            normalize_path(env_dirs[k], cwd),
            p,
            cwd,
        )
}

pub fn is_protected_root(dir: &str, env_dirs: &[String], cwd: Option<&str>) -> (r: bool)
    ensures
        r == is_protected_spec(dir@, strings_view(env_dirs@), opt_str(cwd)),
{
    let p = normalize(dir, cwd);
    let v = chars_of(p.as_str());
    if v.len() == 2 && (('a' <= v[0] && v[0] <= 'z') || ('A' <= v[0] && v[0] <= 'Z')) && v[1] == ':' {
        return true;
    }
    let ghost ev = strings_view(env_dirs@);
    let mut k: usize = 0;
    while k < env_dirs.len()
        invariant
            k <= env_dirs.len(),
            ev == strings_view(env_dirs@),
            p@ == normalize_path(dir@, opt_str(cwd)),
            forall|j: int|
                0 <= j < k ==> !(normalize_path(ev[j], opt_str(cwd)).len() > 0 && #[trigger] same_path_spec(
                    normalize_path(ev[j], opt_str(cwd)),
                    normalize_path(dir@, opt_str(cwd)),
                    opt_str(cwd),
                )),
        decreases env_dirs.len() - k,
    {
        assert(ev[k as int] == env_dirs@[k as int]@);
        let base = normalize(env_dirs[k].as_str(), cwd);
        let bv = chars_of(base.as_str());
        if bv.len() > 0 && same_path(base.as_str(), p.as_str(), cwd) {
            return true;
        }
        k = k + 1;
    }
    false
}

// ---------------------------------------------------------------------------
// Foreign entries
// ---------------------------------------------------------------------------

/// A name belongs to the package: a payload or legacy payload, or one of their
/// `.tmp` staging copies (case-insensitive).
pub open spec fn matches_payload(name: Seq<char>, p: Seq<char>) -> bool {
    seq_eq_ic(name, p) || seq_eq_ic(name, p + ".tmp"@)
}

pub open spec fn is_ours_spec(name: Seq<char>, payloads: Seq<Seq<char>>, legacy: Seq<Seq<char>>) -> bool {
    exists|k: int|
        0 <= k < (payloads + legacy).len() && #[trigger] matches_payload(name, (payloads + legacy)[k])
}

/// The names in a directory that are not the package's (the marker counts as ours).
pub open spec fn foreign_of(
    names: Seq<Seq<char>>,
    payloads: Seq<Seq<char>>,
    legacy: Seq<Seq<char>>,
    marker: Seq<char>,
) -> Seq<Seq<char>>
    decreases names.len(),
{
    if names.len() == 0 {
        Seq::empty()
    } else {
        let f = foreign_of(names.drop_last(), payloads, legacy, marker);
        let n = names.last();
        if n != marker && !is_ours_spec(n, payloads, legacy) {
            f.push(n)
        } else {
            f
        }
    }
}

pub open spec fn strs_view(v: Seq<&str>) -> Seq<Seq<char>> {
    v.map_values(|s: &str| s@)
}

fn matches_payload_exec(nv: &[char], p: &str) -> (r: bool)
    ensures
        r == matches_payload(nv@, p@),
{
    let pc = chars_of(p);
    let mut pt = chars_of(p);
    push_str(&mut pt, ".tmp");
    chars_eq_ic(nv, pc.as_slice()) || chars_eq_ic(nv, pt.as_slice())
}

fn is_ours(name: &str, payloads: &[&str], legacy: &[&str]) -> (r: bool)
    ensures
        r == is_ours_spec(name@, strs_view(payloads@), strs_view(legacy@)),
{
    let nv = chars_of(name);
    let ghost pv = strs_view(payloads@);
    let ghost lv = strs_view(legacy@);
    let mut k: usize = 0;
    while k < payloads.len()
        invariant
            k <= payloads.len(),
            pv == strs_view(payloads@),
            lv == strs_view(legacy@),
            nv@ == name@,
            forall|j: int| 0 <= j < k ==> !#[trigger] matches_payload(nv@, (pv + lv)[j]),
        decreases payloads.len() - k,
    {
        assert((pv + lv)[k as int] == payloads@[k as int]@);
        if matches_payload_exec(nv.as_slice(), payloads[k]) {
            return true;
        }
        k = k + 1;
    }
    let mut m: usize = 0;
    while m < legacy.len()
        invariant
            m <= legacy.len(),
            pv == strs_view(payloads@),
            lv == strs_view(legacy@),
            nv@ == name@,
            forall|j: int| 0 <= j < pv.len() + m ==> !#[trigger] matches_payload(nv@, (pv + lv)[j]),
        decreases legacy.len() - m,
    {
        assert((pv + lv)[pv.len() + m] == legacy@[m as int]@);
        if matches_payload_exec(nv.as_slice(), legacy[m]) {
            return true;
        }
        m = m + 1;
    }
    false
}

/// The entries of a directory (by name) that are not the package's, sorted.
pub fn foreign_entries(names: &[String], payloads: &[&str], legacy: &[&str], marker: &str) -> (r: Vec<
    String,
>)
    ensures
        texts_sorted(strings_view(r@)),
        strings_view(r@).to_multiset() == foreign_of(
            strings_view(names@),
            strs_view(payloads@),
            strs_view(legacy@),
            marker@,
        ).to_multiset(),
{
    let ghost nv = strings_view(names@);
    let mut out: Vec<String> = Vec::new();
    let mut i: usize = 0;
    while i < names.len()
        invariant
            i <= names.len(),
            nv == strings_view(names@),
            strings_view(out@) == foreign_of(
                nv.subrange(0, i as int),
                strs_view(payloads@),
                strs_view(legacy@),
                marker@,
            ),
        decreases names.len() - i,
    {
        assert(nv.subrange(0, i + 1).drop_last() =~= nv.subrange(0, i as int));
        assert(nv.subrange(0, i + 1).last() == names@[i as int]@);
        let name = &names[i];
        let nc = chars_of(name.as_str());
        let is_marker = chars_eq_str(nc.as_slice(), marker);
        if !is_marker && !is_ours(name.as_str(), payloads, legacy) {
            let ghost before = out@;
            out.push(name.clone());
            assert(strings_view(out@) =~= strings_view(before).push(name@));
        }
        i = i + 1;
    }
    assert(nv.subrange(0, nv.len() as int) =~= nv);
    sort_strings(&mut out);
    out
}

// ---------------------------------------------------------------------------
// Residue clean-up
// ---------------------------------------------------------------------------

/// The executable part of an `UninstallString` / `DisplayIcon` value, before
/// the icon index is removed: inside the leading quotes, or the first word.
pub open spec fn exe_head(s: Seq<char>) -> Seq<char> {
    if s.len() > 0 && s[0] == '"' {
        let r = s.subrange(1, s.len() as int);
        r.subrange(0, upto_char(r, 0, '"'))
    } else {
        s.subrange(0, token_end(s, 0))
    }
}

/// An icon index suffix (`,` and digits only) removed.
pub open spec fn strip_icon_index(h: Seq<char>) -> Seq<char> {
    match last_index_of(h, ',') {
        Some(i) => {
            let tail = h.subrange(i + 1, h.len() as int);
            if tail.len() > 0 && all_digits(tail) {
                h.subrange(0, i)
            } else {
                h
            }
        },
        None => h,
    }
}

/// The executable path in a registry value of the forms `"C:\...\x.exe"`,
/// `"C:\...\x.exe" --silent`, `C:\...\x.exe /quiet` or `C:\...\app.ico,0`.
pub open spec fn exe_spec_path(spec: Seq<char>) -> Option<Seq<char>> {
    let s = trim(spec);
    if s.len() == 0 {
        None
    } else {
        let t = trim(strip_icon_index(exe_head(s)));
        if t.len() == 0 {
            None
        } else {
            Some(t)
        }
    }
}

pub fn parse_exe_spec(spec: &str) -> (r: Option<String>)
    ensures
        match r {
            Some(p) => exe_spec_path(spec@) == Some(p@),
            None => exe_spec_path(spec@) is None,
        },
{
    let v = chars_of(spec);
    let (a, b) = trim_bounds(v.as_slice(), 0, v.len());
    proof {
        assert(v@.subrange(0, v@.len() as int) =~= v@);
    }
    if a == b {
        return None;
    }
    let s = slice_to_vec(v.as_slice(), a, b);
    let head: Vec<char> = if s[0] == '"' {
        let r = slice_to_vec(s.as_slice(), 1, s.len());
        let e = upto_char_index(r.as_slice(), 0, '"');
        slice_to_vec(r.as_slice(), 0, e)
    } else {
        let mut e: usize = 0;
        while e < s.len() && !is_whitespace(s[e])
            invariant
                e <= s.len(),
                token_end(s@, 0) == token_end(s@, e as int),
            decreases s.len() - e,
        {
            e = e + 1;
        }
        slice_to_vec(s.as_slice(), 0, e)
    };
    assert(head@ == exe_head(s@));
    let stripped: Vec<char> = match last_index(head.as_slice(), ',') {
        Some(i) => {
            let tail = slice_to_vec(head.as_slice(), i + 1, head.len());
            if tail.len() > 0 && all_ascii_digits(tail.as_slice()) {
                slice_to_vec(head.as_slice(), 0, i)
            } else {
                head
            }
        },
        None => head,
    };
    assert(stripped@ == strip_icon_index(exe_head(s@)));
    let (c, d) = trim_bounds(stripped.as_slice(), 0, stripped.len());
    proof {
        assert(stripped@.subrange(0, stripped@.len() as int) =~= stripped@);
    }
    if c == d {
        return None;
    }
    let t = slice_to_vec(stripped.as_slice(), c, d);
    Some(string_from_chars(t.as_slice()))
}

/// The name is one of the package's payloads (case-insensitive).
pub open spec fn is_payload_name(name: Seq<char>) -> bool {
    exists|k: int| 0 <= k < payload_names().len() && seq_eq_ic(name, #[trigger] payload_names()[k])
}

pub fn is_our_payload_name(name: &str) -> (r: bool)
    ensures
        r == is_payload_name(name@),
{
    let nv = chars_of(name);
    let list = crate::uninstall::plan::payloads();
    let mut k: usize = 0;
    while k < list.len()
        invariant
            k <= list.len(),
            strs_view(list@) == payload_names(),
            nv@ == name@,
            forall|j: int| 0 <= j < k ==> !seq_eq_ic(nv@, #[trigger] payload_names()[j]),
        decreases list.len() - k,
    {
        let pc = chars_of(list[k]);
        assert(strs_view(list@)[k as int] == list@[k as int]@);
        if chars_eq_ic(nv.as_slice(), pc.as_slice()) {
            return true;
        }
        k = k + 1;
    }
    false
}

/// A registry value names a payload executable directly inside `dir`.
pub open spec fn vouches_for(spec: Seq<char>, dir: Seq<char>, cwd: Option<Seq<char>>) -> bool {
    match exe_spec_path(spec) {
        None => false,
        Some(exe) => match split_file_name(normalize_path(exe, cwd)) {
            None => false,
            Some((parent, name)) => same_path_spec(parent, dir, cwd) && is_payload_name(name),
        },
    }
}

pub open spec fn missing_location_text() -> Seq<char> {
    "注册表卸载项缺少 InstallLocation，无法确定残留范围 —— 拒绝执行。\n请手工检查 HKCU\\"@ + UNINSTALL_KEY@
        + "。"@
}

pub open spec fn relative_location_text(loc: Seq<char>) -> Seq<char> {
    "注册表里的 InstallLocation 不是绝对路径，拒绝执行："@ + loc
}

pub open spec fn disagreeing_text(dir: Seq<char>, loc: Seq<char>) -> Seq<char> {
    "注册表卸载项与 InstallLocation 不一致（"@ + dir
        + " 下没有本安装包的载荷可执行文件）——\n这不是本程序留下的残留，拒绝清理。\nInstallLocation="@ + loc
}

/// The install directory a residue clean-up may target: `InstallLocation`,
/// confirmed by `UninstallString` or `DisplayIcon` naming a payload inside it.
pub open spec fn residue_target_spec(
    install_location: Seq<char>,
    uninstall_string: Seq<char>,
    display_icon: Seq<char>,
    cwd: Option<Seq<char>>,
) -> Result<Seq<char>, Seq<char>> {
    let loc = trim(install_location);
    if loc.len() == 0 {
        Err(missing_location_text())
    } else if !is_absolute_path(loc) {
        Err(relative_location_text(loc))
    } else {
        let dir = normalize_path(loc, cwd);
        if vouches_for(uninstall_string, dir, cwd) || vouches_for(display_icon, dir, cwd) {
            Ok(dir)
        } else {
            Err(disagreeing_text(dir, loc))
        }
    }
}

fn vouches(spec: &str, dir: &str, cwd: Option<&str>) -> (r: bool)
    ensures
        r == vouches_for(spec@, dir@, opt_str(cwd)),
{
    let exe = match parse_exe_spec(spec) {
        Some(e) => e,
        None => return false,
    };
    let n = normalize(exe.as_str(), cwd);
    let nv = chars_of(n.as_str());
    match split_file_name_chars(nv.as_slice()) {
        None => false,
        Some((k, e)) => {
            let parent = string_from_chars(slice_to_vec(nv.as_slice(), 0, k).as_slice());
            let name = string_from_chars(slice_to_vec(nv.as_slice(), k, e).as_slice());
            same_path(parent.as_str(), dir, cwd) && is_our_payload_name(name.as_str())
        },
    }
}

fn text_of(parts: Vec<char>) -> (r: String)
    ensures
        r@ == parts@,
{
    string_from_chars(parts.as_slice())
}

pub fn residue_target_of(
    install_location: &str,
    uninstall_string: &str,
    display_icon: &str,
    cwd: Option<&str>,
) -> (r: Result<String, String>)
    ensures
        match r {
            Ok(d) => residue_target_spec(
                install_location@,
                uninstall_string@,
                display_icon@,
                opt_str(cwd),
            ) == Ok::<Seq<char>, Seq<char>>(d@),
            Err(e) => residue_target_spec(
                install_location@,
                uninstall_string@,
                display_icon@,
                opt_str(cwd),
            ) == Err::<Seq<char>, Seq<char>>(e@),
        },
{
    let v = chars_of(install_location);
    let (a, b) = trim_bounds(v.as_slice(), 0, v.len());
    proof {
        assert(v@.subrange(0, v@.len() as int) =~= v@);
    }
    if a == b {
        let mut m: Vec<char> = Vec::new();
        push_str(&mut m, "注册表卸载项缺少 InstallLocation，无法确定残留范围 —— 拒绝执行。\n请手工检查 HKCU\\");
        push_str(&mut m, UNINSTALL_KEY);
        push_str(&mut m, "。");
        assert(m@ =~= missing_location_text());
        return Err(text_of(m));
    }
    let loc = string_from_chars(slice_to_vec(v.as_slice(), a, b).as_slice());
    if !is_absolute(loc.as_str()) {
        let mut m: Vec<char> = Vec::new();
        push_str(&mut m, "注册表里的 InstallLocation 不是绝对路径，拒绝执行：");
        push_str(&mut m, loc.as_str());
        return Err(text_of(m));
    }
    let dir = normalize(loc.as_str(), cwd);
    if vouches(uninstall_string, dir.as_str(), cwd) || vouches(display_icon, dir.as_str(), cwd) {
        return Ok(dir);
    }
    let mut m: Vec<char> = Vec::new();
    push_str(&mut m, "注册表卸载项与 InstallLocation 不一致（");
    push_str(&mut m, dir.as_str());
    push_str(&mut m, " 下没有本安装包的载荷可执行文件）——\n这不是本程序留下的残留，拒绝清理。\nInstallLocation=");
    push_str(&mut m, loc.as_str());
    assert(m@ =~= disagreeing_text(dir@, loc@));
    Err(text_of(m))
}

pub open spec fn residue_dir_spec(dir: Seq<char>, protected: bool, source_tree: bool, marker_present: bool) -> Result<
    (),
    Seq<char>,
> {
    if protected {
        Err("残留清理的目标是受保护路径，拒绝执行："@ + dir)
    } else if source_tree {
        Err("残留清理的目标是源码树/开发目录（存在 Cargo.toml 或 crates\\），拒绝执行："@ + dir)
    } else if marker_present {
        Err("安装标记仍然存在（"@ + join(dir, MARKER_NAME@) + "）—— 安装目录是完整的，请运行安装目录里的 "@
            + SELF_NAME@ + " 走正规卸载。\n残留清理只处理“安装目录已被删除、只剩注册表项/快捷方式”的情形。"@)
    } else {
        Ok(())
    }
}

/// The directory-level admission of a residue clean-up: a protected path, a
/// source tree, or a directory that still holds the install marker (an intact
/// install, for the regular uninstaller) is refused.
pub fn residue_dir_allowed(dir: &str, protected: bool, source_tree: bool, marker_present: bool) -> (r:
    Result<(), String>)
    ensures
        match r {
            Ok(()) => residue_dir_spec(dir@, protected, source_tree, marker_present) == Ok::<
                (),
                Seq<char>,
            >(()),
            Err(e) => residue_dir_spec(dir@, protected, source_tree, marker_present) == Err::<
                (),
                Seq<char>,
            >(e@),
        },
{
    let mut m: Vec<char> = Vec::new();
    if protected {
        push_str(&mut m, "残留清理的目标是受保护路径，拒绝执行：");
        push_str(&mut m, dir);
        return Err(text_of(m));
    }
    if source_tree {
        push_str(&mut m, "残留清理的目标是源码树/开发目录（存在 Cargo.toml 或 crates\\），拒绝执行：");
        push_str(&mut m, dir);
        return Err(text_of(m));
    }
    if marker_present {
        let marker = crate::paths::join_path(dir, MARKER_NAME);
        push_str(&mut m, "安装标记仍然存在（");
        push_str(&mut m, marker.as_str());
        push_str(&mut m, "）—— 安装目录是完整的，请运行安装目录里的 ");
        push_str(&mut m, SELF_NAME);
        push_str(&mut m, " 走正规卸载。\n残留清理只处理“安装目录已被删除、只剩注册表项/快捷方式”的情形。");
        assert(m@ =~= "安装标记仍然存在（"@ + join(dir@, MARKER_NAME@) + "）—— 安装目录是完整的，请运行安装目录里的 "@
            + SELF_NAME@ + " 走正规卸载。\n残留清理只处理“安装目录已被删除、只剩注册表项/快捷方式”的情形。"@);
        return Err(text_of(m));
    }
    Ok(())
}

} // verus!
