//! What the uninstaller decides about things outside the install directory:
//! which desktop shortcuts and stale temporary copies are its own, which
//! running launchers it stops, how the second pass is started, and how the
//! `%VAR%` references of shell folder values expand.
use vstd::prelude::*;

use crate::service::{pids_text, push_pids};
use crate::text::{
    chars_eq_ic, chars_of, dec, lower_seq, push_all, push_str, push_u64, slice_to_vec,
    string_from_chars, strings_view, upto_char, upto_char_index,
};
use crate::uninstall::guards::opt_str;
use crate::uninstall::plan::Context;
use crate::winpath::{same_path, same_path_spec};

verus! {

fn starts_with_ic(s: &str, p: &str) -> (r: bool)
    ensures
        r == crate::text::starts_with(lower_seq(s@), p@),
{
    let l = crate::text::lower_chars(chars_of(s).as_slice());
    let pv = chars_of(p);
    crate::text::starts_with_chars(l.as_slice(), pv.as_slice())
}

fn ends_with_ic(s: &str, p: &str) -> (r: bool)
    ensures
        r == crate::text::ends_with(lower_seq(s@), p@),
{
    let l = crate::text::lower_chars(chars_of(s).as_slice());
    let pv = chars_of(p);
    if pv.len() > l.len() {
        return false;
    }
    crate::text::match_at(l.as_slice(), l.len() - pv.len(), pv.as_slice())
}

/// Our desktop shortcuts: `DSH Harness*.lnk` (older name) or
/// `DeepSeek Harness Launcher*.lnk`, in any case.
pub open spec fn shortcut_name_spec(name: Seq<char>) -> bool {
    let l = lower_seq(name);
    (crate::text::starts_with(l, "dsh harness"@) || crate::text::starts_with(
        l,
        "deepseek harness launcher"@,
    )) && crate::text::ends_with(l, ".lnk"@)
}

pub fn shortcut_name_matches(name: &str) -> (r: bool)
    ensures
        r == shortcut_name_spec(name@),
{
    (starts_with_ic(name, "dsh harness") || starts_with_ic(name, "deepseek harness launcher"))
        && ends_with_ic(name, ".lnk")
}

/// A copy of the uninstaller left in `%TEMP%` by an earlier second pass:
/// `dsh-uninstall-*.exe`, in any case.
pub open spec fn temp_copy_name_spec(name: Seq<char>) -> bool {
    let l = lower_seq(name);
    crate::text::starts_with(l, "dsh-uninstall-"@) && crate::text::ends_with(l, ".exe"@)
}

pub fn is_stale_temp_copy_name(name: &str) -> (r: bool)
    ensures
        r == temp_copy_name_spec(name@),
{
    starts_with_ic(name, "dsh-uninstall-") && ends_with_ic(name, ".exe")
}

/// The name of this process's copy in `%TEMP%`: `dsh-uninstall-<pid>.exe`.
pub fn temp_copy_name(pid: u32) -> (r: String)
    ensures
        r@ == "dsh-uninstall-"@ + dec(pid as nat) + ".exe"@,
        temp_copy_name_spec(r@),
{
    let mut v: Vec<char> = Vec::new();
    push_str(&mut v, "dsh-uninstall-");
    push_u64(&mut v, pid as u64);
    push_str(&mut v, ".exe");
    proof {
        reveal_strlit("dsh-uninstall-");
        reveal_strlit(".exe");
        let d = dec(pid as nat);
        let s = "dsh-uninstall-"@ + d + ".exe"@;
        assert(lower_seq(s).subrange(0, 14) =~= lower_seq("dsh-uninstall-"@));
        assert(lower_seq("dsh-uninstall-"@) =~= "dsh-uninstall-"@);
        assert(lower_seq(s).subrange(s.len() - 4, s.len() as int) =~= ".exe"@);
    }
    string_from_chars(v.as_slice())
}

/// A running launcher is stopped only when it is not this process, its image
/// is `DSHLauncher.exe`, and its image lies directly in the install directory;
/// a name or path that cannot be read keeps it alive.
pub open spec fn stops_launcher_spec(
    pid: u32,
    me: u32,
    image_name: Option<Seq<char>>,
    image_dir: Option<Seq<char>>,
    dir: Seq<char>,
    cwd: Option<Seq<char>>,
) -> bool {
    &&& pid != me
    &&& image_name is Some && crate::text::seq_eq_ic(image_name->0, "DSHLauncher.exe"@)
    &&& image_dir is Some && same_path_spec(image_dir->0, dir, cwd)
}

pub fn stops_launcher(
    pid: u32,
    me: u32,
    image_name: Option<&str>,
    image_dir: Option<&str>,
    dir: &str,
    cwd: Option<&str>,
) -> (r: bool)
    ensures
        r == stops_launcher_spec(pid, me, opt_str(image_name), opt_str(image_dir), dir@, opt_str(cwd)),
{
    if pid == me {
        return false;
    }
    let name = match image_name {
        Some(n) => n,
        None => return false,
    };
    let nv = chars_of(name);
    let want = chars_of("DSHLauncher.exe");
    if !chars_eq_ic(nv.as_slice(), want.as_slice()) {
        return false;
    }
    match image_dir {
        Some(d) => same_path(d, dir, cwd),
        None => false,
    }
}

/// Strictly increasing.
pub open spec fn strictly_sorted(s: Seq<u32>) -> bool {
    forall|i: int, j: int| 0 <= i < j < s.len() ==> s[i] < s[j]
}

/// The pids in increasing order, each once (the stopped processes as reported).
pub fn sorted_unique_pids(pids: &[u32]) -> (r: Vec<u32>)
    ensures
        strictly_sorted(r@),
        r@.to_set() == pids@.to_set(),
{
    let mut out: Vec<u32> = Vec::new();
    let mut i: usize = 0;
    while i < pids.len()
        invariant
            i <= pids.len(),
            strictly_sorted(out@),
            out@.to_set() == pids@.subrange(0, i as int).to_set(),
        decreases pids.len() - i,
    {
        let p = pids[i];
        let mut k: usize = 0;
        while k < out.len() && out[k] < p
            invariant
                k <= out.len(),
                strictly_sorted(out@),
                forall|m: int| 0 <= m < k ==> out@[m] < p,
            decreases out.len() - k,
        {
            k = k + 1;
        }
        let ghost before = out@;
        assert(pids@.subrange(0, i + 1) =~= pids@.subrange(0, i as int).push(p));
        proof {
            pids@.subrange(0, i as int).lemma_push_to_set_commute(p);
        }
        if k < out.len() && out[k] == p {
            assert(before.to_set().contains(p));
            assert(before.to_set().insert(p) =~= before.to_set());
        } else {
            out.insert(k, p);
            assert(out@ =~= before.subrange(0, k as int).push(p) + before.subrange(k as int, before.len() as int));
            assert forall|a: int, b: int| 0 <= a < b < out@.len() implies out@[a] < out@[b] by {
                if b < k {
                } else if b == k {
                    assert(out@[a] == before[a]);
                } else if a < k {
                    assert(out@[b] == before[b - 1]);
                    assert(out@[a] == before[a]);
                    assert(before[a] < before[b - 1] || a == b - 1);
                    if k < before.len() {
                        assert(before[k as int] > p);
                    }
                } else if a == k {
                    assert(out@[b] == before[b - 1]);
                    assert(before[k as int] >= p);
                    assert(before[k as int] != p);
                    if b - 1 > k {
                        assert(before[k as int] < before[b - 1]);
                    }
                } else {
                    assert(out@[a] == before[a - 1]);
                    assert(out@[b] == before[b - 1]);
                }
            }
            assert(out@.to_set() =~= before.to_set().insert(p)) by {
                assert forall|x: u32| out@.to_set().contains(x) implies before.to_set().insert(p).contains(x) by {
                    let j = choose|j: int| 0 <= j < out@.len() && out@[j] == x;
                    if j < k {
                        assert(before[j] == x);
                    } else if j > k {
                        assert(before[j - 1] == x);
                    }
                }
                assert forall|x: u32| before.to_set().insert(p).contains(x) implies out@.to_set().contains(x) by {
                    if x == p {
                        assert(out@[k as int] == p);
                    } else {
                        let j = choose|j: int| 0 <= j < before.len() && before[j] == x;
                        if j < k {
                            assert(out@[j] == x);
                        } else {
                            assert(out@[j + 1] == x);
                        }
                    }
                }
            }
        }
        i = i + 1;
    }
    assert(pids@.subrange(0, pids@.len() as int) =~= pids@);
    out
}

/// The error when stopped launchers are still alive after the wait.
pub open spec fn still_running_spec(alive: Seq<u32>) -> Seq<char> {
    "启动器进程在 10 秒内未退出（PID "@ + pids_text(alive) + "），部分文件可能仍被占用"@
}

pub fn launcher_still_running(alive: &[u32]) -> (r: String)
    ensures
        r@ == still_running_spec(alive@),
{
    let mut v: Vec<char> = Vec::new();
    push_str(&mut v, "启动器进程在 10 秒内未退出（PID ");
    push_pids(&mut v, alive);
    push_str(&mut v, "），部分文件可能仍被占用");
    string_from_chars(v.as_slice())
}

/// The arguments of the second pass: the checked install directory, and the
/// user's `--purge` and `--silent` carried over.
pub fn deferred_pass_args(ctx: &Context) -> (r: Vec<String>)
    ensures
        r@.len() == 2 + (if ctx.purge {
            1int
        } else {
            0int
        }) + (if ctx.silent {
            1int
        } else {
            0int
        }),
        r@[0]@ == "--deferred-pass"@,
        r@[1]@ == ctx.install_dir@,
        ctx.purge ==> r@[2]@ == "--purge"@,
        ctx.silent ==> r@[r@.len() - 1]@ == "--silent"@,
{
    let mut r: Vec<String> = Vec::new();
    r.push(string_from_chars(chars_of("--deferred-pass").as_slice()));
    r.push(string_from_chars(chars_of(ctx.install_dir.as_str()).as_slice()));
    if ctx.purge {
        r.push(string_from_chars(chars_of("--purge").as_slice()));
    }
    if ctx.silent {
        r.push(string_from_chars(chars_of("--silent").as_slice()));
    }
    r
}

// ---------------------------------------------------------------------------
// %VAR% expansion
// ---------------------------------------------------------------------------

/// The name of a `%NAME%` reference: not empty and without `\`.
pub open spec fn var_name_ok(name: Seq<char>) -> bool {
    name.len() > 0 && !name.contains('\\')
}

/// The value set for `name`, where the list has it (the first entry wins).
pub open spec fn lookup(names: Seq<Seq<char>>, values: Seq<Seq<char>>, name: Seq<char>) -> Option<
    Seq<char>,
>
    decreases names.len(),
{
    if names.len() == 0 {
        None
    } else if names[0] == name {
        if values.len() > 0 {
            Some(values[0])
        } else {
            None
        }
    } else {
        lookup(names.drop_first(), values.drop_first(), name)
    }
}

/// `s` from `i` with each `%NAME%` whose variable is set replaced by its
/// value; every other character, `%` included, is kept.
pub open spec fn expand_from(s: Seq<char>, i: int, names: Seq<Seq<char>>, values: Seq<Seq<char>>) -> Seq<
    char,
>
    decreases s.len() - i,
{
    if i < 0 || i >= s.len() {
        Seq::empty()
    } else {
        let j = upto_char(s, i + 1, '%');
        let name = s.subrange(i + 1, j);
        proof {
            crate::text::lemma_upto_char(s, i + 1, '%');
        }
        if s[i] == '%' && j < s.len() && var_name_ok(name) && lookup(names, values, name) is Some {
            lookup(names, values, name)->0 + expand_from(s, j + 1, names, values)
        } else {
            seq![s[i]] + expand_from(s, i + 1, names, values)
        }
    }
}

/// The names of `s` to look up, in order: at each `%`, the text up to the next
/// `%` where it is a valid name.
pub open spec fn refs_from(s: Seq<char>, i: int) -> Seq<Seq<char>>
    decreases s.len() - i,
{
    if i < 0 || i >= s.len() {
        Seq::empty()
    } else {
        let j = upto_char(s, i + 1, '%');
        let name = s.subrange(i + 1, j);
        if s[i] == '%' && j < s.len() && var_name_ok(name) {
            seq![name] + refs_from(s, i + 1)
        } else {
            refs_from(s, i + 1)
        }
    }
}

fn has_backslash(v: &[char]) -> (r: bool)
    ensures
        r == v@.contains('\\'),
{
    let mut i: usize = 0;
    while i < v.len()
        invariant
            i <= v.len(),
            forall|k: int| 0 <= k < i ==> v@[k] != '\\',
        decreases v.len() - i,
    {
        if v[i] == '\\' {
            return true;
        }
        i = i + 1;
    }
    false
}

/// The variable names `s` refers to (what the caller looks up).
pub fn env_var_refs(s: &str) -> (r: Vec<String>)
    ensures
        strings_view(r@) == refs_from(s@, 0),
{
    let v = chars_of(s);
    let mut rev: Vec<String> = Vec::new();
    let mut i: usize = v.len();
    // built from the end, so that each step prepends
    let ghost mut acc: Seq<Seq<char>> = Seq::empty();
    while i > 0
        invariant
            i <= v.len(),
            v@ == s@,
            acc == refs_from(v@, i as int),
            strings_view(rev@) == acc.reverse(),
        decreases i,
    {
        i = i - 1;
        let start = i + 1;
        let j = if start <= v.len() {
            upto_char_index(v.as_slice(), start, '%')
        } else {
            v.len()
        };
        proof {
            crate::text::lemma_upto_char(v@, start as int, '%');
        }
        if v[i] == '%' && j < v.len() {
            let name = slice_to_vec(v.as_slice(), start, j);
            if name.len() > 0 && !has_backslash(name.as_slice()) {
                let ghost old_rev = rev@;
                rev.push(string_from_chars(name.as_slice()));
                proof {
                    acc = seq![name@] + acc;
                    assert(strings_view(rev@) =~= strings_view(old_rev).push(name@));
                    assert(acc.reverse() =~= (seq![name@] + refs_from(v@, i + 1)).reverse());
                    assert((seq![name@] + refs_from(v@, i + 1)).reverse() =~= refs_from(v@, i + 1).reverse().push(name@));
                }
            }
        }
    }
    let mut out: Vec<String> = Vec::new();
    let mut k: usize = rev.len();
    while k > 0
        invariant
            k <= rev.len(),
            strings_view(rev@) == acc.reverse(),
            strings_view(out@) == acc.reverse().subrange(k as int, rev@.len() as int).reverse(),
        decreases k,
    {
        k = k - 1;
        let ghost old_out = out@;
        let t = string_from_chars(chars_of(rev[k].as_str()).as_slice());
        out.push(t);
        proof {
            assert(strings_view(rev@)[k as int] == rev@[k as int]@);
            assert(strings_view(out@) =~= strings_view(old_out).push(rev@[k as int]@));
            assert(acc.reverse().subrange(k as int, rev@.len() as int).reverse() =~= acc.reverse().subrange(
                k + 1,
                rev@.len() as int,
            ).reverse().push(acc.reverse()[k as int]));
        }
    }
    assert(acc.reverse().subrange(0, rev@.len() as int) =~= acc.reverse());
    assert(acc.reverse().reverse() =~= acc);
    out
}

fn lookup_exec(names: &[String], values: &[String], name: &[char]) -> (r: Option<usize>)
    requires
        names.len() == values.len(),
    ensures
        match r {
            Some(k) => k < values.len() && lookup(strings_view(names@), strings_view(values@), name@)
                == Some(values@[k as int]@),
            None => lookup(strings_view(names@), strings_view(values@), name@) is None,
        },
{
    let mut k: usize = 0;
    assert(strings_view(names@).subrange(0, names@.len() as int) =~= strings_view(names@));
    assert(strings_view(values@).subrange(0, values@.len() as int) =~= strings_view(values@));
    while k < names.len()
        invariant
            k <= names.len() == values.len(),
            lookup(strings_view(names@), strings_view(values@), name@) == lookup(
                strings_view(names@).subrange(k as int, names@.len() as int),
                strings_view(values@).subrange(k as int, values@.len() as int),
                name@,
            ),
        decreases names.len() - k,
    {
        let nk = chars_of(names[k].as_str());
        let ghost ns = strings_view(names@).subrange(k as int, names@.len() as int);
        let ghost vs = strings_view(values@).subrange(k as int, values@.len() as int);
        assert(ns[0] == names@[k as int]@);
        assert(vs[0] == values@[k as int]@);
        if crate::text::chars_eq(nk.as_slice(), name) {
            return Some(k);
        }
        assert(ns.drop_first() =~= strings_view(names@).subrange(k + 1, names@.len() as int));
        assert(vs.drop_first() =~= strings_view(values@).subrange(k + 1, values@.len() as int));
        k = k + 1;
    }
    None
}

/// Expands the `%NAME%` references of `s` with the variables that are set
/// (`names[k]` holds `values[k]`); unknown references stay as written.
pub fn expand_env_with(s: &str, names: &[String], values: &[String]) -> (r: String)
    requires
        names.len() == values.len(),
    ensures
        r@ == expand_from(s@, 0, strings_view(names@), strings_view(values@)),
{
    let v = chars_of(s);
    let ghost ns = strings_view(names@);
    let ghost vs = strings_view(values@);
    let mut out: Vec<char> = Vec::new();
    let mut i: usize = 0;
    while i < v.len()
        invariant
            i <= v.len(),
            v@ == s@,
            names.len() == values.len(),
            ns == strings_view(names@),
            vs == strings_view(values@),
            out@ + expand_from(v@, i as int, ns, vs) == expand_from(v@, 0, ns, vs),
        decreases v.len() - i,
    {
        let start = i + 1;
        let j = upto_char_index(v.as_slice(), start, '%');
        proof {
            crate::text::lemma_upto_char(v@, start as int, '%');
        }
        let mut replaced = false;
        if v[i] == '%' && j < v.len() {
            let name = slice_to_vec(v.as_slice(), start, j);
            if name.len() > 0 && !has_backslash(name.as_slice()) {
                match lookup_exec(names, values, name.as_slice()) {
                    Some(k) => {
                        let ghost before = out@;
                        let val = chars_of(values[k].as_str());
                        push_all(&mut out, val.as_slice());
                        assert(strings_view(values@)[k as int] == values@[k as int]@);
                        assert(out@ + expand_from(v@, j + 1, ns, vs) =~= before + expand_from(
                            v@,
                            i as int,
                            ns,
                            vs,
                        ));
                        i = j + 1;
                        replaced = true;
                    },
                    None => {},
                }
            }
        }
        if !replaced {
            let ghost before = out@;
            out.push(v[i]);
            assert(out@ + expand_from(v@, i + 1, ns, vs) =~= before + expand_from(v@, i as int, ns, vs));
            i = i + 1;
        }
    }
    assert(out@ =~= expand_from(v@, 0, ns, vs));
    string_from_chars(out.as_slice())
}

} // verus!
