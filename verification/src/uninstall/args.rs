//! The uninstaller's command line: `--switch`, `-Switch` and `/switch`
//! spellings alike, including the Windows and MDM ones (`/quiet`, `/whatif`, `/?`).
use vstd::prelude::*;

use crate::text::{chars_eq_str, chars_of, lower_chars, lower_seq, strings_view};

verus! {

/// Parsed command-line switches.
#[derive(Debug, Clone, PartialEq, Eq)]
pub struct Args {
    /// Also delete `%APPDATA%\DSHLauncher` (the user's settings).
    pub purge: bool,
    /// Print problems only.
    pub silent: bool,
    /// Report what would be done, change nothing.
    pub dry_run: bool,
    /// Only clear what lives outside the install directory (the uninstall
    /// registry key and desktop shortcuts), deleting no file or directory.
    pub clean_residue: bool,
    /// Print usage and exit.
    pub help: bool,
    /// Internal: the second pass, which deletes the install directory itself.
    pub deferred_pass: bool,
    /// Internal: the second pass's target directory.
    pub deferred_dir: Option<String>,
}

/// The switches as values.
pub struct ArgsView {
    pub purge: bool,
    pub silent: bool,
    pub dry_run: bool,
    pub clean_residue: bool,
    pub help: bool,
    pub deferred_pass: bool,
    pub deferred_dir: Option<Seq<char>>,
}

pub open spec fn args_view(a: Args) -> ArgsView {
    ArgsView {
        purge: a.purge,
        silent: a.silent,
        dry_run: a.dry_run,
        clean_residue: a.clean_residue,
        help: a.help,
        deferred_pass: a.deferred_pass,
        deferred_dir: match a.deferred_dir {
            Some(d) => Some(d@),
            None => None,
        },
    }
}

pub open spec fn no_switches() -> ArgsView {
    ArgsView {
        purge: false,
        silent: false,
        dry_run: false,
        clean_residue: false,
        help: false,
        deferred_pass: false,
        deferred_dir: None,
    }
}

impl Default for Args {
    fn default() -> (r: Self)
        ensures
            args_view(r) == no_switches(),
    {
        Args {
            purge: false,
            silent: false,
            dry_run: false,
            clean_residue: false,
            help: false,
            deferred_pass: false,
            deferred_dir: None,
        }
    }
}

pub open spec fn is_lead(c: char) -> bool {
    c == '-' || c == '/'
}

/// Leading `-` and `/` removed.
pub open spec fn strip_lead(s: Seq<char>) -> Seq<char>
    decreases s.len(),
{
    if s.len() > 0 && is_lead(s[0]) {
        strip_lead(s.drop_first())
    } else {
        s
    }
}

/// `-` and `_` removed.
pub open spec fn drop_joiners(s: Seq<char>) -> Seq<char>
    decreases s.len(),
{
    if s.len() == 0 {
        s
    } else if s.last() == '-' || s.last() == '_' {
        drop_joiners(s.drop_last())
    } else {
        drop_joiners(s.drop_last()).push(s.last())
    }
}

/// The normal form of a switch: leading `-`/`/` removed, lower-cased, joiners removed.
pub open spec fn switch_word(raw: Seq<char>) -> Seq<char> {
    drop_joiners(lower_seq(strip_lead(raw)))
}

/// The switches from position `i` on, applied to `a`.
pub open spec fn parse_args_from(argv: Seq<Seq<char>>, i: int, a: ArgsView) -> ArgsView
    decreases argv.len() - i,
{
    if i < 0 || i >= argv.len() {
        a
    } else {
        let w = switch_word(argv[i]);
        if w == "purge"@ || w == "p"@ {
            parse_args_from(argv, i + 1, ArgsView { purge: true, ..a })
        } else if w == "silent"@ || w == "quiet"@ || w == "q"@ || w == "s"@ {
            parse_args_from(argv, i + 1, ArgsView { silent: true, ..a })
        } else if w == "dryrun"@ || w == "whatif"@ || w == "n"@ {
            parse_args_from(argv, i + 1, ArgsView { dry_run: true, ..a })
        } else if w == "cleanresidue"@ || w == "residue"@ {
            parse_args_from(argv, i + 1, ArgsView { clean_residue: true, ..a })
        } else if w == "help"@ || w == "h"@ || w == "?"@ {
            parse_args_from(argv, i + 1, ArgsView { help: true, ..a })
        } else if w == "deferredpass"@ || w == "deferred"@ {
            if i + 1 < argv.len() && !(argv[i + 1].len() > 0 && is_lead(argv[i + 1][0])) {
                parse_args_from(
                    argv,
                    i + 2,
                    ArgsView { deferred_pass: true, deferred_dir: Some(argv[i + 1]), ..a },
                )
            } else {
                parse_args_from(argv, i + 1, ArgsView { deferred_pass: true, help: true, ..a })
            }
        } else if w == "deferreddir"@ {
            if i + 1 < argv.len() {
                parse_args_from(
                    argv,
                    i + 2,
                    ArgsView { deferred_pass: true, deferred_dir: Some(argv[i + 1]), ..a },
                )
            } else {
                parse_args_from(argv, i + 1, ArgsView { help: true, ..a })
            }
        } else {
            parse_args_from(argv, i + 1, a)
        }
    }
}

/// The normal form of one switch.
pub fn normalize_switch(raw: &str) -> (r: Vec<char>)
    ensures
        r@ == switch_word(raw@),
{
    let v = chars_of(raw);
    let mut a: usize = 0;
    assert(v@.subrange(0, v@.len() as int) =~= v@);
    while a < v.len() && (v[a] == '-' || v[a] == '/')
        invariant
            a <= v.len(),
            strip_lead(v@) == strip_lead(v@.subrange(a as int, v@.len() as int)),
        decreases v.len() - a,
    {
        assert(v@.subrange(a as int, v@.len() as int).drop_first() =~= v@.subrange(
            a + 1,
            v@.len() as int,
        ));
        a = a + 1;
    }
    let mut rest: Vec<char> = Vec::new();
    let mut k = a;
    while k < v.len()
        invariant
            a <= k <= v.len(),
            rest@ == v@.subrange(a as int, k as int),
        decreases v.len() - k,
    {
        rest.push(v[k]);
        assert(v@.subrange(a as int, k + 1) =~= v@.subrange(a as int, k as int).push(v@[k as int]));
        k = k + 1;
    }
    proof {
        let t = v@.subrange(a as int, v@.len() as int);
        if t.len() > 0 {
            assert(!is_lead(t[0]));
        }
        assert(strip_lead(t) == t);
    }
    let low = lower_chars(rest.as_slice());
    let mut out: Vec<char> = Vec::new();
    let mut j: usize = 0;
    while j < low.len()
        invariant
            j <= low.len(),
            out@ == drop_joiners(low@.subrange(0, j as int)),
        decreases low.len() - j,
    {
        assert(low@.subrange(0, j + 1).drop_last() =~= low@.subrange(0, j as int));
        if low[j] != '-' && low[j] != '_' {
            out.push(low[j]);
        }
        j = j + 1;
    }
    assert(low@.subrange(0, low@.len() as int) =~= low@);
    out
}

fn starts_with_lead(s: &String) -> (r: bool)
    ensures
        r == (s@.len() > 0 && is_lead(s@[0])),
{
    let v = chars_of(s.as_str());
    v.len() > 0 && (v[0] == '-' || v[0] == '/')
}

impl Args {
    /// Parses the arguments (without the program name). Unknown switches are
    /// ignored; `--deferred-pass` without a directory asks for help.
    pub fn parse(argv: Vec<String>) -> (r: Args)
        ensures
            args_view(r) == parse_args_from(strings_view(argv@), 0, no_switches()),
    {
        let ghost av = strings_view(argv@);
        let mut a = Args::default();
        let mut i: usize = 0;
        while i < argv.len()
            invariant
                i <= argv.len() + 1,
                av == strings_view(argv@),
                parse_args_from(av, i as int, args_view(a)) == parse_args_from(av, 0, no_switches()),
            decreases argv.len() + 1 - i,
        {
            let w = normalize_switch(argv[i].as_str());
            assert(av[i as int] == argv@[i as int]@);
            let ws = w.as_slice();
            if chars_eq_str(ws, "purge") || chars_eq_str(ws, "p") {
                a.purge = true;
            } else if chars_eq_str(ws, "silent") || chars_eq_str(ws, "quiet") || chars_eq_str(ws, "q")
                || chars_eq_str(ws, "s") {
                a.silent = true;
            } else if chars_eq_str(ws, "dryrun") || chars_eq_str(ws, "whatif") || chars_eq_str(ws, "n") {
                a.dry_run = true;
            } else if chars_eq_str(ws, "cleanresidue") || chars_eq_str(ws, "residue") {
                a.clean_residue = true;
            } else if chars_eq_str(ws, "help") || chars_eq_str(ws, "h") || chars_eq_str(ws, "?") {
                a.help = true;
            } else if chars_eq_str(ws, "deferredpass") || chars_eq_str(ws, "deferred") {
                a.deferred_pass = true;
                if i + 1 < argv.len() && !starts_with_lead(&argv[i + 1]) {
                    assert(av[i + 1] == argv@[i + 1]@);
                    a.deferred_dir = Some(argv[i + 1].clone());
                    i = i + 1;
                } else {
                    a.help = true;
                }
            } else if chars_eq_str(ws, "deferreddir") {
                if i + 1 < argv.len() {
                    assert(av[i + 1] == argv@[i + 1]@);
                    a.deferred_dir = Some(argv[i + 1].clone());
                    a.deferred_pass = true;
                    i = i + 1;
                } else {
                    a.help = true;
                }
            }
            i = i + 1;
        }
        a
    }
}

} // verus!
