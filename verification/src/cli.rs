//! The launcher's command line, and the texts of `--version`, `--help` and
//! `--build-info`.
use vstd::prelude::*;

use crate::text::{chars_eq_str, chars_of, is_digit, join_lines, parse_uint, unsigned_body, parse_uint_chars, push_str, slice_to_vec, starts_with, starts_with_chars, string_from_chars, strings_view};
use crate::APP_NAME;

verus! {

/// Parsed command-line options.
#[derive(Debug, Default, Clone, Copy, PartialEq, Eq, Structural)]
pub struct Args {
    /// `--selftest`: start, wait for ready, stop, exit.
    pub selftest: bool,
    /// `--guide`: open the guide on start.
    pub guide: bool,
    /// `--settings`: open the settings window on start.
    pub settings: bool,
    /// `--ipc-probe`: open settings and simulate one click (a self-test).
    pub ipc_probe: bool,
    /// `--quit`: ask the running instance to exit gracefully.
    pub quit: bool,
    /// `--build-info`: print the build and fix markers and exit.
    pub build_info: bool,
    /// `--probe-identity <PID>`: print how a process is identified.
    pub probe_identity: Option<u32>,
    /// `-V` / `--version`.
    pub version: bool,
    /// `-h` / `--help`.
    pub help: bool,
}

/// The release channel (a label, not part of the version).
pub const RELEASE_CHANNEL: &'static str = "LTS";

/// The package version.
pub const PKG_VERSION: &'static str = "5.0.0";

pub open spec fn no_options() -> Args {
    Args {
        selftest: false,
        guide: false,
        settings: false,
        ipc_probe: false,
        quit: false,
        build_info: false,
        probe_identity: None,
        version: false,
        help: false,
    }
}

pub open spec fn pid_of(s: Seq<char>) -> Option<u32> {
    match parse_uint(s, u32::MAX as nat) {
        Some(n) => Some(n as u32),
        None => None,
    }
}

/// The options from position `i` on, applied to `a`.
pub open spec fn parse_from_spec(argv: Seq<Seq<char>>, i: int, a: Args) -> Args
    decreases argv.len() - i,
{
    if i < 0 || i >= argv.len() {
        a
    } else {
        let t = argv[i];
        if t == "--selftest"@ || t == "selftest"@ {
            parse_from_spec(argv, i + 1, Args { selftest: true, ..a })
        } else if t == "--guide"@ || t == "-g"@ {
            parse_from_spec(argv, i + 1, Args { guide: true, ..a })
        } else if t == "--settings"@ || t == "-s"@ {
            parse_from_spec(argv, i + 1, Args { settings: true, ..a })
        } else if t == "--ipc-probe"@ {
            parse_from_spec(argv, i + 1, Args { ipc_probe: true, settings: true, ..a })
        } else if t == "--quit"@ {
            parse_from_spec(argv, i + 1, Args { quit: true, ..a })
        } else if t == "--build-info"@ {
            parse_from_spec(argv, i + 1, Args { build_info: true, ..a })
        } else if t == "--version"@ || t == "-V"@ {
            parse_from_spec(argv, i + 1, Args { version: true, ..a })
        } else if t == "--help"@ || t == "-h"@ {
            parse_from_spec(argv, i + 1, Args { help: true, ..a })
        } else if t == "--probe-identity"@ {
            if i + 1 < argv.len() && pid_of(argv[i + 1]) is Some {
                parse_from_spec(argv, i + 2, Args { probe_identity: pid_of(argv[i + 1]), ..a })
            } else {
                parse_from_spec(argv, i + 1, a)
            }
        } else if starts_with(t, "--probe-identity="@) {
            parse_from_spec(
                argv,
                i + 1,
                Args {
                    probe_identity: pid_of(t.subrange("--probe-identity="@.len() as int, t.len() as int)),
                    ..a
                },
            )
        } else {
            parse_from_spec(argv, i + 1, a)
        }
    }
}

fn pid_exec(s: &[char]) -> (r: Option<u32>)
    ensures
        r == pid_of(s@),
{
    match parse_uint_chars(s, u32::MAX as u64) {
        Some(n) => Some(n as u32),
        None => None,
    }
}

/// Parses the options (without the program name); unknown ones are ignored.
pub fn parse_from(argv: Vec<String>) -> (r: Args)
    ensures
        r == parse_from_spec(strings_view(argv@), 0, no_options()),
{
    let ghost av = strings_view(argv@);
    let mut a = Args::default_options();
    let mut i: usize = 0;
    while i < argv.len()
        invariant
            i <= argv.len() + 1,
            av == strings_view(argv@),
            parse_from_spec(av, i as int, a) == parse_from_spec(av, 0, no_options()),
        decreases argv.len() + 1 - i,
    {
        let t = chars_of(argv[i].as_str());
        assert(av[i as int] == t@);
        let ts = t.as_slice();
        if chars_eq_str(ts, "--selftest") || chars_eq_str(ts, "selftest") {
            a.selftest = true;
        } else if chars_eq_str(ts, "--guide") || chars_eq_str(ts, "-g") {
            a.guide = true;
        } else if chars_eq_str(ts, "--settings") || chars_eq_str(ts, "-s") {
            a.settings = true;
        } else if chars_eq_str(ts, "--ipc-probe") {
            a.ipc_probe = true;
            a.settings = true;
        } else if chars_eq_str(ts, "--quit") {
            a.quit = true;
        } else if chars_eq_str(ts, "--build-info") {
            a.build_info = true;
        } else if chars_eq_str(ts, "--version") || chars_eq_str(ts, "-V") {
            a.version = true;
        } else if chars_eq_str(ts, "--help") || chars_eq_str(ts, "-h") {
            a.help = true;
        } else if chars_eq_str(ts, "--probe-identity") {
            if i + 1 < argv.len() {
                let n = chars_of(argv[i + 1].as_str());
                assert(av[i + 1] == n@);
                match pid_exec(n.as_slice()) {
                    Some(p) => {
                        a.probe_identity = Some(p);
                        i = i + 1;
                    },
                    None => {},
                }
            }
        } else {
            let pre = chars_of("--probe-identity=");
            if starts_with_chars(ts, pre.as_slice()) {
                let rest = slice_to_vec(ts, pre.len(), ts.len());
                a.probe_identity = pid_exec(rest.as_slice());
            }
        }
        i = i + 1;
    }
    a
}

impl Args {
    /// No option set.
    pub fn default_options() -> (r: Args)
        ensures
            r == no_options(),
    {
        Args {
            selftest: false,
            guide: false,
            settings: false,
            ipc_probe: false,
            quit: false,
            build_info: false,
            probe_identity: None,
            version: false,
            help: false,
        }
    }
}

/// `--ipc-probe` always opens the settings window as well.
pub proof fn lemma_ipc_probe_implies_settings(argv: Seq<Seq<char>>, i: int, a: Args)
    requires
        a.ipc_probe ==> a.settings,
    ensures
        parse_from_spec(argv, i, a).ipc_probe ==> parse_from_spec(argv, i, a).settings,
    decreases argv.len() - i,
{
    if 0 <= i < argv.len() {
        let t = argv[i];
        lemma_ipc_probe_implies_settings(argv, i + 1, Args { selftest: true, ..a });
        lemma_ipc_probe_implies_settings(argv, i + 1, Args { guide: true, ..a });
        lemma_ipc_probe_implies_settings(argv, i + 1, Args { settings: true, ..a });
        lemma_ipc_probe_implies_settings(argv, i + 1, Args { ipc_probe: true, settings: true, ..a });
        lemma_ipc_probe_implies_settings(argv, i + 1, Args { quit: true, ..a });
        lemma_ipc_probe_implies_settings(argv, i + 1, Args { build_info: true, ..a });
        lemma_ipc_probe_implies_settings(argv, i + 1, Args { version: true, ..a });
        lemma_ipc_probe_implies_settings(argv, i + 1, Args { help: true, ..a });
        lemma_ipc_probe_implies_settings(argv, i + 1, a);
        if i + 1 < argv.len() {
            lemma_ipc_probe_implies_settings(argv, i + 2, Args { probe_identity: pid_of(argv[i + 1]), ..a });
        }
        lemma_ipc_probe_implies_settings(
            argv,
            i + 1,
            Args {
                probe_identity: pid_of(t.subrange("--probe-identity="@.len() as int, t.len() as int)),
                ..a
            },
        );
    }
}

/// Whether the token `t` occurs at or after position `i`.
pub open spec fn token_from(argv: Seq<Seq<char>>, i: int, t: Seq<char>) -> bool {
    exists|k: int| i <= k < argv.len() && argv[k] == t
}

proof fn lemma_token_from_step(argv: Seq<Seq<char>>, i: int, t: Seq<char>)
    requires
        0 <= i < argv.len(),
    ensures
        token_from(argv, i, t) == (argv[i] == t || token_from(argv, i + 1, t)),
{
    if token_from(argv, i, t) {
        let k = choose|k: int| i <= k < argv.len() && argv[k] == t;
        if k > i {
            assert(token_from(argv, i + 1, t));
        }
    }
    if token_from(argv, i + 1, t) {
        let k = choose|k: int| i + 1 <= k < argv.len() && argv[k] == t;
        assert(token_from(argv, i, t));
    }
}

/// No switch reads as a process id (so `--probe-identity` never swallows one).
proof fn lemma_switch_is_no_pid(t: Seq<char>)
    requires
        t == "--selftest"@ || t == "selftest"@ || t == "--guide"@ || t == "-g"@ || t == "--settings"@ || t == "-s"@
            || t == "--ipc-probe"@ || t == "--quit"@ || t == "--build-info"@ || t == "--version"@ || t == "-V"@
            || t == "--help"@ || t == "-h"@,
    ensures
        pid_of(t) is None,
{
    reveal_strlit("--selftest");
    reveal_strlit("selftest");
    reveal_strlit("--guide");
    reveal_strlit("-g");
    reveal_strlit("--settings");
    reveal_strlit("-s");
    reveal_strlit("--ipc-probe");
    reveal_strlit("--quit");
    reveal_strlit("--build-info");
    reveal_strlit("--version");
    reveal_strlit("-V");
    reveal_strlit("--help");
    reveal_strlit("-h");
    reveal_strlit("--probe-identity");
    if t == "--selftest"@ {
        assert(!is_digit(unsigned_body(t)[9]));
    }
    if t == "selftest"@ {
        assert(!is_digit(unsigned_body(t)[7]));
    }
    if t == "--guide"@ {
        assert(!is_digit(unsigned_body(t)[6]));
    }
    if t == "-g"@ {
        assert(!is_digit(unsigned_body(t)[1]));
    }
    if t == "--settings"@ {
        assert(!is_digit(unsigned_body(t)[9]));
    }
    if t == "-s"@ {
        assert(!is_digit(unsigned_body(t)[1]));
    }
    if t == "--ipc-probe"@ {
        assert(!is_digit(unsigned_body(t)[10]));
    }
    if t == "--quit"@ {
        assert(!is_digit(unsigned_body(t)[5]));
    }
    if t == "--build-info"@ {
        assert(!is_digit(unsigned_body(t)[11]));
    }
    if t == "--version"@ {
        assert(!is_digit(unsigned_body(t)[8]));
    }
    if t == "-V"@ {
        assert(!is_digit(unsigned_body(t)[1]));
    }
    if t == "--help"@ {
        assert(!is_digit(unsigned_body(t)[5]));
    }
    if t == "-h"@ {
        assert(!is_digit(unsigned_body(t)[1]));
    }
}

/// Each switch sets its own option and no other, wherever it stands:
/// an option is on exactly when it was on before or one of its spellings
/// occurs among the arguments (`--ipc-probe` also opens the settings).
#[verifier::spinoff_prover]
#[verifier::rlimit(80)]
pub proof fn lemma_switches_set_their_own_options(argv: Seq<Seq<char>>, i: int, a: Args)
    requires
        0 <= i,
    ensures
        parse_from_spec(argv, i, a).selftest == (a.selftest || token_from(argv, i, "--selftest"@) || token_from(argv, i, "selftest"@)),
        parse_from_spec(argv, i, a).guide == (a.guide || token_from(argv, i, "--guide"@) || token_from(argv, i, "-g"@)),
        parse_from_spec(argv, i, a).settings == (a.settings || token_from(argv, i, "--settings"@) || token_from(argv, i, "-s"@)
            || token_from(argv, i, "--ipc-probe"@)),
        parse_from_spec(argv, i, a).ipc_probe == (a.ipc_probe || token_from(argv, i, "--ipc-probe"@)),
        parse_from_spec(argv, i, a).quit == (a.quit || token_from(argv, i, "--quit"@)),
        parse_from_spec(argv, i, a).build_info == (a.build_info || token_from(argv, i, "--build-info"@)),
        parse_from_spec(argv, i, a).version == (a.version || token_from(argv, i, "--version"@) || token_from(argv, i, "-V"@)),
        parse_from_spec(argv, i, a).help == (a.help || token_from(argv, i, "--help"@) || token_from(argv, i, "-h"@)),
    decreases argv.len() - i,
{
    reveal_strlit("--selftest");
    reveal_strlit("selftest");
    reveal_strlit("--guide");
    reveal_strlit("-g");
    reveal_strlit("--settings");
    reveal_strlit("-s");
    reveal_strlit("--ipc-probe");
    reveal_strlit("--quit");
    reveal_strlit("--build-info");
    reveal_strlit("--version");
    reveal_strlit("-V");
    reveal_strlit("--help");
    reveal_strlit("-h");
    reveal_strlit("--probe-identity");
    assert("-g"@[1] != "-s"@[1]);
    assert("-g"@[1] != "-V"@[1]);
    assert("-g"@[1] != "-h"@[1]);
    assert("-s"@[1] != "-V"@[1]);
    assert("-s"@[1] != "-h"@[1]);
    assert("-V"@[1] != "-h"@[1]);
    assert("--quit"@[2] != "--help"@[2]);
    assert("--selftest"@[4] != "--settings"@[4]);
    if i >= argv.len() {
        return;
    }
    let t = argv[i];
    lemma_token_from_step(argv, i, "--selftest"@);
    lemma_token_from_step(argv, i, "selftest"@);
    lemma_token_from_step(argv, i, "--guide"@);
    lemma_token_from_step(argv, i, "-g"@);
    lemma_token_from_step(argv, i, "--settings"@);
    lemma_token_from_step(argv, i, "-s"@);
    lemma_token_from_step(argv, i, "--ipc-probe"@);
    lemma_token_from_step(argv, i, "--quit"@);
    lemma_token_from_step(argv, i, "--build-info"@);
    lemma_token_from_step(argv, i, "--version"@);
    lemma_token_from_step(argv, i, "-V"@);
    lemma_token_from_step(argv, i, "--help"@);
    lemma_token_from_step(argv, i, "-h"@);
    if t == "--selftest"@ || t == "selftest"@ {
        lemma_switches_set_their_own_options(argv, i + 1, Args { selftest: true, ..a });
    } else if t == "--guide"@ || t == "-g"@ {
        lemma_switches_set_their_own_options(argv, i + 1, Args { guide: true, ..a });
    } else if t == "--settings"@ || t == "-s"@ {
        lemma_switches_set_their_own_options(argv, i + 1, Args { settings: true, ..a });
    } else if t == "--ipc-probe"@ {
        lemma_switches_set_their_own_options(argv, i + 1, Args { ipc_probe: true, settings: true, ..a });
    } else if t == "--quit"@ {
        lemma_switches_set_their_own_options(argv, i + 1, Args { quit: true, ..a });
    } else if t == "--build-info"@ {
        lemma_switches_set_their_own_options(argv, i + 1, Args { build_info: true, ..a });
    } else if t == "--version"@ || t == "-V"@ {
        lemma_switches_set_their_own_options(argv, i + 1, Args { version: true, ..a });
    } else if t == "--help"@ || t == "-h"@ {
        lemma_switches_set_their_own_options(argv, i + 1, Args { help: true, ..a });
    } else if t == "--probe-identity"@ {
        if i + 1 < argv.len() && pid_of(argv[i + 1]) is Some {
            let n = argv[i + 1];
            if n == "--selftest"@ || n == "selftest"@ || n == "--guide"@ || n == "-g"@ || n == "--settings"@ || n == "-s"@
                || n == "--ipc-probe"@ || n == "--quit"@ || n == "--build-info"@ || n == "--version"@ || n == "-V"@
                || n == "--help"@ || n == "-h"@ {
                lemma_switch_is_no_pid(n);
            }
            lemma_token_from_step(argv, i + 1, "--selftest"@);
            lemma_token_from_step(argv, i + 1, "selftest"@);
            lemma_token_from_step(argv, i + 1, "--guide"@);
            lemma_token_from_step(argv, i + 1, "-g"@);
            lemma_token_from_step(argv, i + 1, "--settings"@);
            lemma_token_from_step(argv, i + 1, "-s"@);
            lemma_token_from_step(argv, i + 1, "--ipc-probe"@);
            lemma_token_from_step(argv, i + 1, "--quit"@);
            lemma_token_from_step(argv, i + 1, "--build-info"@);
            lemma_token_from_step(argv, i + 1, "--version"@);
            lemma_token_from_step(argv, i + 1, "-V"@);
            lemma_token_from_step(argv, i + 1, "--help"@);
            lemma_token_from_step(argv, i + 1, "-h"@);
            lemma_switches_set_their_own_options(argv, i + 2, Args { probe_identity: pid_of(argv[i + 1]), ..a });
        } else {
            lemma_switches_set_their_own_options(argv, i + 1, a);
        }
    } else if starts_with(t, "--probe-identity="@) {
        lemma_switches_set_their_own_options(
            argv,
            i + 1,
            Args { probe_identity: pid_of(t.subrange("--probe-identity="@.len() as int, t.len() as int)), ..a },
        );
    } else {
        lemma_switches_set_their_own_options(argv, i + 1, a);
    }
}

/// The profile name of a build.
pub open spec fn profile_name(debug_build: bool) -> Seq<char> {
    if debug_build {
        "debug"@
    } else {
        "release"@
    }
}

/// `--version`: name, version, channel and build profile.
pub open spec fn version_text_spec(debug_build: bool) -> Seq<char> {
    APP_NAME@ + " "@ + PKG_VERSION@ + " "@ + RELEASE_CHANNEL@ + " ("@ + profile_name(debug_build) + ")\n"@
}

fn profile_str(debug_build: bool) -> (r: &'static str)
    ensures
        r@ == profile_name(debug_build),
{
    if debug_build {
        "debug"
    } else {
        "release"
    }
}

pub fn version_text(debug_build: bool) -> (r: String)
    ensures
        r@ == version_text_spec(debug_build),
{
    let mut v: Vec<char> = Vec::new();
    push_str(&mut v, APP_NAME);
    push_str(&mut v, " ");
    push_str(&mut v, PKG_VERSION);
    push_str(&mut v, " ");
    push_str(&mut v, RELEASE_CHANNEL);
    push_str(&mut v, " (");
    push_str(&mut v, profile_str(debug_build));
    push_str(&mut v, ")\n");
    assert(v@ =~= version_text_spec(debug_build));
    string_from_chars(v.as_slice())
}

/// The body of `--help` after its first words.
pub open spec fn help_body() -> Seq<char> {
    HELP_BODY@
}

/// The usage text after the name, version and channel.
pub const HELP_BODY: &'static str = " —— dsh web 的 Windows 桌面启动器\n\n用法: DSHLauncher.exe [选项]\n\n选项:\n  无参数                 启动启动器（托盘常驻，自动启动 / 接管 dsh web 服务）\n  -s, --settings         启动时直接打开设置窗口\n  -g, --guide            启动时打开新手指引\n  -V, --version          打印版本后退出\n  -h, --help             打印本帮助后退出\n  --quit                 请求已在运行的实例优雅退出（服务去留按 service_lifecycle 决定）\n  --build-info           打印构建与修复标记后退出（发布脚本据此判定产物真伪）\n  --selftest             运行自检（启动 → 就绪 → 停止）后退出\n  --probe-identity <PID> 打印对某个 PID 的 dsh 身份判定过程（防误杀诊断）\n  --ipc-probe            自检用：打开设置页并模拟一次「保存设置」点击\n\n退出码: 0 = 成功 / 1 = 自检失败 / 2 = 已有实例导致自检无法执行 / 3 = --quit 未收到回执\n";

/// `--help`: name, version and channel, then the options and exit codes.
pub open spec fn help_text_spec() -> Seq<char> {
    APP_NAME@ + " "@ + PKG_VERSION@ + " "@ + RELEASE_CHANNEL@ + HELP_BODY@
}

pub fn help_text() -> (r: String)
    ensures
        r@ == help_text_spec(),
{
    let mut v: Vec<char> = Vec::new();
    push_str(&mut v, APP_NAME);
    push_str(&mut v, " ");
    push_str(&mut v, PKG_VERSION);
    push_str(&mut v, " ");
    push_str(&mut v, RELEASE_CHANNEL);
    push_str(&mut v, HELP_BODY);
    assert(v@ =~= help_text_spec());
    string_from_chars(v.as_slice())
}

/// The fix markers of this build: the release scripts tell a new build from a
/// stale file by them.
pub open spec fn fix_marker_names() -> Seq<Seq<char>> {
    seq![
        "deadlock-fix-service-start-lock-scope"@,
        "service-independent-default"@,
        "token-capture-race-fix"@,
        "token-wait-tick-driven"@,
        "theme-sample-read-and-clear"@,
        "cleanup-confirm-and-restore"@,
        "active-session-guard"@,
        "exit-policy-and-lifecycle-safety"@,
        "ui-thread-never-blocks"@,
        "monitor-startup-grace"@,
        "settings-reset-wired"@,
        "cli-version-help"@,
        "service-start-offloaded"@,
        "port-probe-throttled"@,
        "process-liveness-and-tree-hardened"@,
        "auth-required-self-heal"@,
    ]
}

pub fn fix_markers() -> (r: Vec<&'static str>)
    ensures
        r@.map_values(|s: &str| s@) == fix_marker_names(),
{
    let r = vec![
        "deadlock-fix-service-start-lock-scope",
        "service-independent-default",
        "token-capture-race-fix",
        "token-wait-tick-driven",
        "theme-sample-read-and-clear",
        "cleanup-confirm-and-restore",
        "active-session-guard",
        "exit-policy-and-lifecycle-safety",
        "ui-thread-never-blocks",
        "monitor-startup-grace",
        "settings-reset-wired",
        "cli-version-help",
        "service-start-offloaded",
        "port-probe-throttled",
        "process-liveness-and-tree-hardened",
        "auth-required-self-heal",
    ];
    assert(r@.map_values(|s: &str| s@) =~= fix_marker_names());
    r
}

/// `--build-info`: `key=value` lines with the version, profile and fix markers.
pub open spec fn build_info_spec(debug_build: bool) -> Seq<char> {
    "version="@ + PKG_VERSION@ + "\nprofile="@ + profile_name(debug_build) + "\nfixes="@ + join_lines(
        fix_marker_names(),
        ","@,
    ) + "\n"@
}

pub fn build_info_text(debug_build: bool) -> (r: String)
    ensures
        r@ == build_info_spec(debug_build),
{
    let mut v: Vec<char> = Vec::new();
    push_str(&mut v, "version=");
    push_str(&mut v, PKG_VERSION);
    push_str(&mut v, "\nprofile=");
    push_str(&mut v, profile_str(debug_build));
    push_str(&mut v, "\nfixes=");
    let m = fix_markers();
    let ghost start = v@;
    let ghost names = fix_marker_names();
    let mut i: usize = 0;
    while i < m.len()
        invariant
            i <= m.len(),
            m@.map_values(|s: &str| s@) == names,
            names == fix_marker_names(),
            v@ == start + join_lines(names.subrange(0, i as int), ","@),
        decreases m.len() - i,
    {
        let ghost pre = names.subrange(0, i as int);
        let ghost nxt = names.subrange(0, i + 1);
        assert(nxt.drop_last() =~= pre);
        assert(nxt.last() == m@[i as int]@);
        if i > 0 {
            push_str(&mut v, ",");
        }
        push_str(&mut v, m[i]);
        proof {
            if i == 0 {
                assert(join_lines(pre, ","@) =~= Seq::<char>::empty());
            }
            assert(v@ =~= start + join_lines(nxt, ","@));
        }
        i = i + 1;
    }
    assert(names.subrange(0, names.len() as int) =~= names);
    push_str(&mut v, "\n");
    assert(v@ =~= build_info_spec(debug_build));
    string_from_chars(v.as_slice())
}

} // verus!
