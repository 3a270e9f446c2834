//! Typed settings: `%APPDATA%\DSHLauncher\settings.toml`.
//!
//! A settings file that does not parse is an error the user sees and can reset,
//! never a silent fall-back to defaults. On first run a legacy `settings.ini`
//! is migrated, and the migrated values pass the same validation.
use vstd::prelude::*;

use crate::paths::{app_data_dir, app_dir_of, join, join_path};
use crate::process::ChildLifecycle;
use crate::text::{
    chars_eq_str, chars_of, find_from, first_match_from, lower_chars, lower_seq, parse_uint,
    parse_uint_chars, push_str, slice_to_vec, string_from_chars, trim, trim_bounds,
};

verus! {

/// The settings schema version this program writes.
pub const CURRENT_SCHEMA_VERSION: u32 = 2;

/// The default service port.
pub const DEFAULT_PORT: u16 = 3080;

/// How the dsh service lives relative to the launcher.
#[derive(Debug, Clone, Copy, PartialEq, Eq, Structural)]
pub enum ServiceLifecycle {
    /// The service outlives the launcher (exit, crash, upgrade); the next
    /// launch adopts it again.
    Independent,
    /// The service is bound to the launcher's job and ends with it.
    Tied,
}

impl Default for ServiceLifecycle {
    fn default() -> (r: Self)
        ensures
            r == ServiceLifecycle::Independent,
    {
        ServiceLifecycle::Independent
    }
}

impl ServiceLifecycle {
    /// The matching lifecycle of the process layer.
    pub fn to_child_lifecycle(self) -> (r: ChildLifecycle)
        ensures
            r == match self {
                ServiceLifecycle::Independent => ChildLifecycle::Independent,
                ServiceLifecycle::Tied => ChildLifecycle::Tied,
            },
    {
        match self {
            ServiceLifecycle::Independent => ChildLifecycle::Independent,
            ServiceLifecycle::Tied => ChildLifecycle::Tied,
        }
    }

    /// Human-readable name, for the log.
    pub fn label(self) -> (r: &'static str)
        ensures
            r@ == match self {
                ServiceLifecycle::Independent => "independent（服务独立于启动器）"@,
                ServiceLifecycle::Tied => "tied（服务随启动器退出而停止）"@,
            },
    {
        match self {
            ServiceLifecycle::Independent => "independent（服务独立于启动器）",
            ServiceLifecycle::Tied => "tied（服务随启动器退出而停止）",
        }
    }
}

/// The launcher's settings.
#[derive(Debug, Clone, PartialEq)]
pub struct Settings {
    /// The schema version the file was written with.
    pub schema_version: u32,
    /// The port the service listens on.
    pub port: u16,
    /// Closing the window hides it to the tray.
    pub tray_on_close: bool,
    /// An explicit `node.exe`; empty for the one dsh ships.
    pub node_path: String,
    /// The working directory of the service (its workspace); empty for dsh's default.
    pub work_dir: String,
    /// How the service lives relative to the launcher.
    pub service_lifecycle: ServiceLifecycle,
    /// Stop a leftover dsh process that no longer listens on the port.
    pub stop_stale_orphan: bool,
}

pub fn default_port() -> (r: u16)
    ensures
        r == DEFAULT_PORT,
{
    DEFAULT_PORT
}

pub fn default_tray_on_close() -> (r: bool)
    ensures
        r,
{
    true
}

pub fn default_schema_version() -> (r: u32)
    ensures
        r == CURRENT_SCHEMA_VERSION,
{
    CURRENT_SCHEMA_VERSION
}

pub fn default_true() -> (r: bool)
    ensures
        r,
{
    true
}

/// The defaults: port 3080, hide to tray, no explicit node or working
/// directory, independent service, stale orphans stopped.
pub open spec fn is_default_settings(s: Settings) -> bool {
    &&& s.schema_version == CURRENT_SCHEMA_VERSION
    &&& s.port == DEFAULT_PORT
    &&& s.tray_on_close
    &&& s.node_path@ == Seq::<char>::empty()
    &&& s.work_dir@ == Seq::<char>::empty()
    &&& s.service_lifecycle == ServiceLifecycle::Independent
    &&& s.stop_stale_orphan
}

impl Default for Settings {
    fn default() -> (r: Self)
        ensures
            is_default_settings(r),
    {
        Settings {
            schema_version: default_schema_version(),
            port: default_port(),
            tray_on_close: default_tray_on_close(),
            node_path: String::new(),
            work_dir: String::new(),
            service_lifecycle: ServiceLifecycle::Independent,
            stop_stale_orphan: default_true(),
        }
    }
}

/// Why settings could not be used.
#[derive(Debug, Clone, PartialEq)]
pub enum ConfigError {
    /// The file at `path` does not parse (or its migration is invalid).
    Corrupted { path: String, reason: String },
    /// A value is out of range.
    Invalid(String),
    /// The settings could not be encoded.
    Serialize(String),
    /// A file operation failed.
    Io(String),
}

pub open spec fn config_error_text(e: ConfigError) -> Seq<char> {
    match e {
        ConfigError::Corrupted { path, reason } => "配置文件损坏："@ + path@ + "（"@ + reason@
            + "）—— 可在设置页一键重置"@,
        ConfigError::Invalid(m) => "配置项非法："@ + m@,
        ConfigError::Serialize(m) => "序列化失败："@ + m@,
        ConfigError::Io(m) => "IO 错误："@ + m@,
    }
}

impl ConfigError {
    /// The message shown to the user.
    pub fn message(&self) -> (r: String)
        ensures
            r@ == config_error_text(*self),
    {
        let mut v: Vec<char> = Vec::new();
        match self {
            ConfigError::Corrupted { path, reason } => {
                push_str(&mut v, "配置文件损坏：");
                push_str(&mut v, path.as_str());
                push_str(&mut v, "（");
                push_str(&mut v, reason.as_str());
                push_str(&mut v, "）—— 可在设置页一键重置");
            },
            ConfigError::Invalid(m) => {
                push_str(&mut v, "配置项非法：");
                push_str(&mut v, m.as_str());
            },
            ConfigError::Serialize(m) => {
                push_str(&mut v, "序列化失败：");
                push_str(&mut v, m.as_str());
            },
            ConfigError::Io(m) => {
                push_str(&mut v, "IO 错误：");
                push_str(&mut v, m.as_str());
            },
        }
        assert(v@ =~= config_error_text(*self));
        string_from_chars(v.as_slice())
    }
}

/// The error of a legacy migration whose result fails validation.
pub fn migration_error(legacy_path: String, err: &ConfigError) -> (r: ConfigError)
    ensures
        r matches ConfigError::Corrupted { path, reason } && path@ == legacy_path@ && reason@
            == "旧版 settings.ini 迁移后不合法："@ + config_error_text(*err),
{
    let mut v: Vec<char> = Vec::new();
    push_str(&mut v, "旧版 settings.ini 迁移后不合法：");
    let m = err.message();
    push_str(&mut v, m.as_str());
    ConfigError::Corrupted { path: legacy_path, reason: string_from_chars(v.as_slice()) }
}

// ---------------------------------------------------------------------------
// The legacy ini format
// ---------------------------------------------------------------------------

/// The fields a legacy ini sets, and whether it set any.
pub struct IniFields {
    pub port: u16,
    pub tray_on_close: bool,
    pub node_path: Seq<char>,
    pub work_dir: Seq<char>,
    pub saw_any: bool,
}

/// The end of the line that starts at `i`: the next line feed, or the end of the text.
pub open spec fn line_end(s: Seq<char>, i: int) -> int
    decreases s.len() - i,
{
    if i < 0 || i >= s.len() {
        s.len() as int
    } else if s[i] == '\n' {
        i
    } else {
        line_end(s, i + 1)
    }
}

/// The end of the line from `i` lies within the text, on a line break when before its end.
pub proof fn lemma_line_end_bounds(s: Seq<char>, i: int)
    requires
        0 <= i <= s.len(),
    ensures
        i <= line_end(s, i) <= s.len(),
        line_end(s, i) < s.len() ==> s[line_end(s, i)] == '\n',
    decreases s.len() - i,
{
    if i < s.len() && s[i] != '\n' {
        lemma_line_end_bounds(s, i + 1);
    }
}

/// One ini line applied: comments (`#`, `;`), section headers and lines
/// without `=` are skipped; keys are case-insensitive, values trimmed; an
/// unknown key or a port that is not a `u16` changes nothing.
pub open spec fn apply_ini_line(st: IniFields, line: Seq<char>) -> IniFields {
    let t = trim(line);
    if t.len() == 0 || t[0] == '#' || t[0] == ';' || t[0] == '[' {
        st
    } else {
        match first_match_from(t, 0, seq!['=']) {
            None => st,
            Some(i) => {
                let k = lower_seq(trim(t.subrange(0, i)));
                let v = trim(t.subrange(i + 1, t.len() as int));
                if k == "port"@ {
                    match parse_uint(v, 65535) {
                        Some(p) => IniFields { port: p as u16, saw_any: true, ..st },
                        None => st,
                    }
                } else if k == "trayonclose"@ {
                    let lv = lower_seq(v);
                    IniFields {
                        tray_on_close: lv == "1"@ || lv == "true"@ || lv == "yes"@,
                        saw_any: true,
                        ..st
                    }
                } else if k == "nodepath"@ {
                    IniFields { node_path: v, saw_any: true, ..st }
                } else if k == "workdir"@ {
                    IniFields { work_dir: v, saw_any: true, ..st }
                } else {
                    st
                }
            },
        }
    }
}

/// The lines from position `start` on, applied in order.
pub open spec fn ini_from(s: Seq<char>, start: int, st: IniFields) -> IniFields
    decreases s.len() - start,
{
    if start < 0 || start > s.len() {
        st
    } else {
        let e = line_end(s, start);
        proof {
            lemma_line_end_bounds(s, start);
        }
        let st2 = apply_ini_line(st, s.subrange(start, e));
        if e >= s.len() {
            st2
        } else {
            ini_from(s, e + 1, st2)
        }
    }
}

pub open spec fn ini_defaults() -> IniFields {
    IniFields {
        port: DEFAULT_PORT,
        tray_on_close: true,
        node_path: Seq::empty(),
        work_dir: Seq::empty(),
        saw_any: false,
    }
}

/// What a whole ini text sets.
pub open spec fn ini_fields(raw: Seq<char>) -> IniFields {
    ini_from(raw, 0, ini_defaults())
}

/// The ini fields held by settings under migration.
pub open spec fn ini_state(s: Settings, saw_any: bool) -> IniFields {
    IniFields {
        port: s.port,
        tray_on_close: s.tray_on_close,
        node_path: s.node_path@,
        work_dir: s.work_dir@,
        saw_any,
    }
}

/// Settings that hold the fields of `f` and the defaults elsewhere.
pub open spec fn settings_from_ini(s: Settings, f: IniFields) -> bool {
    &&& s.port == f.port
    &&& s.tray_on_close == f.tray_on_close
    &&& s.node_path@ == f.node_path
    &&& s.work_dir@ == f.work_dir
    &&& s.schema_version == CURRENT_SCHEMA_VERSION
    &&& s.service_lifecycle == ServiceLifecycle::Independent
    &&& s.stop_stale_orphan
}

fn apply_line(cur: &mut Settings, saw: &mut bool, line: &[char])
    requires
        old(cur).schema_version == CURRENT_SCHEMA_VERSION,
        old(cur).service_lifecycle == ServiceLifecycle::Independent,
        old(cur).stop_stale_orphan,
    ensures
        ini_state(*final(cur), *final(saw)) == apply_ini_line(ini_state(*old(cur), *old(saw)), line@),
        final(cur).schema_version == CURRENT_SCHEMA_VERSION,
        final(cur).service_lifecycle == ServiceLifecycle::Independent,
        final(cur).stop_stale_orphan,
{
    let ghost st = ini_state(*cur, *saw);
    let (a, b) = trim_bounds(line, 0, line.len());
    proof {
        assert(line@.subrange(0, line@.len() as int) =~= line@);
    }
    let t = slice_to_vec(line, a, b);
    assert(t@ == trim(line@));
    if t.len() == 0 || t[0] == '#' || t[0] == ';' || t[0] == '[' {
        return;
    }
    let eq = vec!['='];
    assert(eq@ =~= seq!['=']);
    let i = match find_from(t.as_slice(), 0, eq.as_slice()) {
        Some(i) => i,
        None => return,
    };
    let (ka, kb) = trim_bounds(t.as_slice(), 0, i);
    let kt = slice_to_vec(t.as_slice(), ka, kb);
    let k = lower_chars(kt.as_slice());
    let (va, vb) = trim_bounds(t.as_slice(), i + 1, t.len());
    let v = slice_to_vec(t.as_slice(), va, vb);
    assert(k@ == lower_seq(trim(t@.subrange(0, i as int))));
    assert(v@ == trim(t@.subrange(i + 1, t@.len() as int)));
    if chars_eq_str(k.as_slice(), "port") {
        match parse_uint_chars(v.as_slice(), 65535) {
            Some(p) => {
                cur.port = p as u16;
                *saw = true;
            },
            None => {},
        }
    } else if chars_eq_str(k.as_slice(), "trayonclose") {
        let lv = lower_chars(v.as_slice());
        cur.tray_on_close = chars_eq_str(lv.as_slice(), "1") || chars_eq_str(lv.as_slice(), "true")
            || chars_eq_str(lv.as_slice(), "yes");
        *saw = true;
    } else if chars_eq_str(k.as_slice(), "nodepath") {
        cur.node_path = string_from_chars(v.as_slice());
        *saw = true;
    } else if chars_eq_str(k.as_slice(), "workdir") {
        cur.work_dir = string_from_chars(v.as_slice());
        *saw = true;
    }
}

impl Settings {
    /// `%APPDATA%\DSHLauncher\settings.toml`.
    pub fn file_path() -> (r: String)
        ensures
            exists|d: Option<Seq<char>>| r@ == join(app_dir_of(d), "settings.toml"@),
    {
        let base = app_data_dir();
        join_path(base.as_str(), "settings.toml")
    }

    /// The legacy `settings.ini` beside it.
    pub fn legacy_ini_path() -> (r: String)
        ensures
            exists|d: Option<Seq<char>>| r@ == join(app_dir_of(d), "settings.ini"@),
    {
        let base = app_data_dir();
        join_path(base.as_str(), "settings.ini")
    }

    /// Whether the settings were written by a newer launcher.
    pub fn is_from_newer_schema(&self) -> (r: bool)
        ensures
            r == (self.schema_version > CURRENT_SCHEMA_VERSION),
    {
        self.schema_version > CURRENT_SCHEMA_VERSION
    }

    /// The settings are usable: the port is not zero.
    pub fn validate(&self) -> (r: Result<(), ConfigError>)
        ensures
            r is Ok <==> self.port != 0,
            r matches Err(e) ==> e matches ConfigError::Invalid(m) && m@ == "port 不能为 0"@,
    {
        if self.port == 0 {
            let m = string_from_chars(chars_of("port 不能为 0").as_slice());
            return Err(ConfigError::Invalid(m));
        }
        Ok(())
    }

    /// Reads a legacy ini text (`key=value` lines). `None` when it sets no
    /// known key; unknown keys and invalid values are ignored.
    pub fn parse_ini(raw: &str) -> (r: Option<Settings>)
        ensures
            match r {
                Some(s) => ini_fields(raw@).saw_any && settings_from_ini(s, ini_fields(raw@)),
                None => !ini_fields(raw@).saw_any,
            },
    {
        let s = chars_of(raw);
        let mut cur = Settings::default();
        let mut saw = false;
        let mut start: usize = 0;
        assert(ini_state(cur, saw) == ini_defaults());
        loop
            invariant
                start <= s.len(),
                s@ == raw@,
                ini_from(s@, start as int, ini_state(cur, saw)) == ini_fields(raw@),
                cur.schema_version == CURRENT_SCHEMA_VERSION,
                cur.service_lifecycle == ServiceLifecycle::Independent,
                cur.stop_stale_orphan,
            ensures
                ini_state(cur, saw) == ini_fields(raw@),
                cur.schema_version == CURRENT_SCHEMA_VERSION,
                cur.service_lifecycle == ServiceLifecycle::Independent,
                cur.stop_stale_orphan,
            decreases s.len() - start,
        {
            let mut e = start;
            while e < s.len() && s[e] != '\n'
                invariant
                    start <= e <= s.len(),
                    line_end(s@, start as int) == line_end(s@, e as int),
                decreases s.len() - e,
            {
                e = e + 1;
            }
            proof {
                lemma_line_end_bounds(s@, start as int);
            }
            assert(e == line_end(s@, start as int));
            let line = slice_to_vec(s.as_slice(), start, e);
            apply_line(&mut cur, &mut saw, line.as_slice());
            if e >= s.len() {
                break;
            }
            start = e + 1;
        }
        if saw {
            Some(cur)
        } else {
            None
        }
    }

    /// The working directory, or `None` when it is blank (dsh's default is kept).
    pub fn effective_work_dir(&self) -> (r: Option<&str>)
        ensures
            match r {
                Some(p) => p@ == self.work_dir@ && trim(self.work_dir@).len() > 0,
                None => trim(self.work_dir@).len() == 0,
            },
    {
        let v = chars_of(self.work_dir.as_str());
        let (a, b) = trim_bounds(v.as_slice(), 0, v.len());
        proof {
            assert(v@.subrange(0, v@.len() as int) =~= v@);
        }
        if a == b {
            None
        } else {
            Some(self.work_dir.as_str())
        }
    }
}

} // verus!
