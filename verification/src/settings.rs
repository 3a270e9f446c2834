//! The settings page: the values it is filled with, the commands it sends
//! (JSON messages over the page's IPC channel), and where it may navigate.
use vstd::prelude::*;

use crate::config::{ServiceLifecycle, Settings};
use crate::json::{
    json_document_members, json_members, json_quote, json_string, parse_value, value_as_bool, value_as_str,
    value_get, JsonScalar,
};
use crate::text::{dec, push_u64, chars_eq_ic, chars_eq_str, chars_of, push_str, seq_eq_ic, slice_to_vec, starts_with, starts_with_chars, string_from_chars, trim, trim_bounds};

verus! {

/// The current settings as the page's form shows them.
#[derive(Debug, Clone)]
pub struct SettingsInit {
    pub port: u16,
    pub work_dir: String,
    pub node_path: String,
    pub tray_on_close: bool,
    /// The service is independent of the launcher (the default policy).
    pub independent_service: bool,
    /// The real path of the log file.
    pub log_path: String,
}

impl Default for SettingsInit {
    fn default() -> (r: SettingsInit)
        ensures
            r.port == 0,
            r.work_dir@.len() == 0,
            r.node_path@.len() == 0,
            !r.tray_on_close,
            !r.independent_service,
            r.log_path@.len() == 0,
    {
        SettingsInit {
            port: 0,
            work_dir: String::new(),
            node_path: String::new(),
            tray_on_close: false,
            independent_service: false,
            log_path: String::new(),
        }
    }
}

fn copy_text(s: &String) -> (r: String)
    ensures
        r@ == s@,
{
    let v = chars_of(s.as_str());
    string_from_chars(v.as_slice())
}

/// The form's values for `config`, with the log file at `log_path`.
pub fn settings_init(config: &Settings, log_path: String) -> (r: SettingsInit)
    ensures
        r.port == config.port,
        r.work_dir@ == config.work_dir@,
        r.node_path@ == config.node_path@,
        r.tray_on_close == config.tray_on_close,
        r.independent_service == (config.service_lifecycle == ServiceLifecycle::Independent),
        r.log_path@ == log_path@,
{
    SettingsInit {
        port: config.port,
        work_dir: copy_text(&config.work_dir),
        node_path: copy_text(&config.node_path),
        tray_on_close: config.tray_on_close,
        independent_service: match config.service_lifecycle {
            ServiceLifecycle::Independent => true,
            ServiceLifecycle::Tied => false,
        },
        log_path,
    }
}

/// A command sent by the settings page.
#[derive(Debug, Clone, PartialEq)]
pub enum SettingsCommand {
    /// Save the general settings. An absent switch keeps the current value.
    Save {
        port: String,
        work_dir: String,
        node_path: String,
        tray_on_close: Option<bool>,
        independent_service: Option<bool>,
    },
    Start,
    Stop,
    OpenLogDir,
    CleanArchived,
    /// Restore the defaults (delete the settings file).
    ResetConfig,
}

/// The fields the page's JSON message carries.
pub struct CommandFields {
    pub action: String,
    pub port: Option<String>,
    pub work_dir: Option<String>,
    pub node_path: Option<String>,
    pub tray_on_close: Option<bool>,
    pub independent_service: Option<bool>,
}

/// The fields as plain values.
pub type FieldsView = (
    Seq<char>,
    Option<Seq<char>>,
    Option<Seq<char>>,
    Option<Seq<char>>,
    Option<bool>,
    Option<bool>,
);

pub open spec fn opt_text(o: Option<String>) -> Option<Seq<char>> {
    match o {
        Some(s) => Some(s@),
        None => None,
    }
}

impl CommandFields {
    pub open spec fn view_fields(self) -> FieldsView {
        (
            self.action@,
            opt_text(self.port),
            opt_text(self.work_dir),
            opt_text(self.node_path),
            self.tray_on_close,
            self.independent_service,
        )
    }
}

/// The text of member `key`, if there is one and it is a string.
pub open spec fn member_text(m: Map<Seq<char>, JsonScalar>, key: Seq<char>) -> Option<Seq<char>> {
    if m.contains_key(key) {
        m[key].0
    } else {
        None
    }
}

/// The truth value of member `key`, if there is one and it is a boolean.
pub open spec fn member_flag(m: Map<Seq<char>, JsonScalar>, key: Seq<char>) -> Option<bool> {
    if m.contains_key(key) {
        m[key].1
    } else {
        None
    }
}

/// The command fields in a page message: none unless the body is a JSON
/// document whose `"action"` member is a string; otherwise that string, the
/// strings under `"port"`, `"workDir"` and `"nodePath"` and the booleans
/// under `"trayOnClose"` and `"independentService"`, each `None` where the
/// member is absent or of another kind.
pub open spec fn command_fields_of(body: Seq<char>) -> Option<FieldsView> {
    match json_document_members(body) {
        None => None,
        Some(m) => match member_text(m, "action"@) {
            None => None,
            Some(a) => Some(
                (
                    a,
                    member_text(m, "port"@),
                    member_text(m, "workDir"@),
                    member_text(m, "nodePath"@),
                    member_flag(m, "trayOnClose"@),
                    member_flag(m, "independentService"@),
                ),
            ),
        },
    }
}

fn text_member(v: &serde_json::Value, key: &str) -> (r: Option<String>)
    ensures
        opt_text(r) == member_text(json_members(*v), key@),
{
    match value_get(v, key) {
        Some(m) => match value_as_str(m) {
            Some(t) => Some(string_from_chars(chars_of(t).as_slice())),
            None => None,
        },
        None => None,
    }
}

fn flag_member(v: &serde_json::Value, key: &str) -> (r: Option<bool>)
    ensures
        r == member_flag(json_members(*v), key@),
{
    match value_get(v, key) {
        Some(m) => value_as_bool(m),
        None => None,
    }
}

/// Reads the command fields of a page message (see [`command_fields_of`]).
fn read_command_fields(body: &str) -> (r: Option<CommandFields>)
    ensures
        match r {
            Some(f) => command_fields_of(body@) == Some(f.view_fields()),
            None => command_fields_of(body@) is None,
        },
{
    let v = match parse_value(body) {
        Some(v) => v,
        None => return None,
    };
    let action = match text_member(&v, "action") {
        Some(a) => a,
        None => return None,
    };
    let f = CommandFields {
        action,
        port: text_member(&v, "port"),
        work_dir: text_member(&v, "workDir"),
        node_path: text_member(&v, "nodePath"),
        tray_on_close: flag_member(&v, "trayOnClose"),
        independent_service: flag_member(&v, "independentService"),
    };
    Some(f)
}

pub open spec fn text_or_empty(o: Option<Seq<char>>) -> Seq<char> {
    match o {
        Some(t) => t,
        None => Seq::empty(),
    }
}

/// Whether `r` is the command the fields `f` describe: `save` takes the texts
/// (empty where absent) and keeps the switches as sent; the five other actions
/// carry nothing; any other action is no command.
pub open spec fn command_of(f: FieldsView, r: Option<SettingsCommand>) -> bool {
    let a = f.0;
    if a == "save"@ {
        match r {
            Some(SettingsCommand::Save { port, work_dir, node_path, tray_on_close, independent_service }) => {
                &&& port@ == text_or_empty(f.1)
                &&& work_dir@ == text_or_empty(f.2)
                &&& node_path@ == text_or_empty(f.3)
                &&& tray_on_close == f.4
                &&& independent_service == f.5
            },
            _ => false,
        }
    } else if a == "start"@ {
        r == Some(SettingsCommand::Start)
    } else if a == "stop"@ {
        r == Some(SettingsCommand::Stop)
    } else if a == "openLogDir"@ {
        r == Some(SettingsCommand::OpenLogDir)
    } else if a == "cleanArchived"@ {
        r == Some(SettingsCommand::CleanArchived)
    } else if a == "resetConfig"@ {
        r == Some(SettingsCommand::ResetConfig)
    } else {
        r is None
    }
}

fn text_of(o: Option<String>) -> (r: String)
    ensures
        r@ == text_or_empty(opt_text(o)),
{
    match o {
        Some(s) => s,
        None => String::new(),
    }
}

/// The command the fields read from a message describe.
pub fn command_from_fields(f: CommandFields) -> (r: Option<SettingsCommand>)
    ensures
        command_of(f.view_fields(), r),
{
    let a = chars_of(f.action.as_str());
    let a = a.as_slice();
    if chars_eq_str(a, "save") {
        Some(
            SettingsCommand::Save {
                port: text_of(f.port),
                work_dir: text_of(f.work_dir),
                node_path: text_of(f.node_path),
                tray_on_close: f.tray_on_close,
                independent_service: f.independent_service,
            },
        )
    } else if chars_eq_str(a, "start") {
        Some(SettingsCommand::Start)
    } else if chars_eq_str(a, "stop") {
        Some(SettingsCommand::Stop)
    } else if chars_eq_str(a, "openLogDir") {
        Some(SettingsCommand::OpenLogDir)
    } else if chars_eq_str(a, "cleanArchived") {
        Some(SettingsCommand::CleanArchived)
    } else if chars_eq_str(a, "resetConfig") {
        Some(SettingsCommand::ResetConfig)
    } else {
        None
    }
}

/// Parses a message of the page; one that is not JSON, has no string action or
/// an unknown one is ignored (`None`).
pub fn parse_command(body: &str) -> (r: Option<SettingsCommand>)
    ensures
        match command_fields_of(body@) {
            Some(f) => command_of(f, r),
            None => r is None,
        },
{
    match read_command_fields(body) {
        Some(f) => command_from_fields(f),
        None => None,
    }
}

/// The settings page is an inline document: it may only stay on a blank page
/// or an inline document, never navigate to an address.
pub open spec fn page_navigation_allowed(url: Seq<char>) -> bool {
    let u = trim(url);
    ||| u.len() == 0
    ||| seq_eq_ic(u, "about:blank"@)
    ||| starts_with(u, "data:text/html"@)
    ||| starts_with(u, "blob:"@)
}

/// Whether the settings page may navigate to `url`.
pub fn is_allowed_navigation(url: &str) -> (r: bool)
    ensures
        r == page_navigation_allowed(url@),
{
    let v = chars_of(url);
    let (a, b) = trim_bounds(v.as_slice(), 0, v.len());
    proof {
        assert(v@.subrange(0, v@.len() as int) =~= v@);
    }
    let t = slice_to_vec(v.as_slice(), a, b);
    let u = t.as_slice();
    let blank = chars_of("about:blank");
    let data = chars_of("data:text/html");
    let blob = chars_of("blob:");
    u.len() == 0 || chars_eq_ic(u, blank.as_slice()) || starts_with_chars(u, data.as_slice())
        || starts_with_chars(u, blob.as_slice())
}

/// Why the settings window could not be shown.
#[derive(Debug)]
pub enum SettingsError {
    WindowCreation(String),
    WebViewCreation(String),
}

impl SettingsError {
    /// The message shown for the error.
    pub fn message(&self) -> (r: String)
        ensures
            r@ == match self {
                SettingsError::WindowCreation(e) => "窗口创建失败："@ + e@,
                SettingsError::WebViewCreation(e) => "WebView2 创建失败："@ + e@,
            },
    {
        let mut v: Vec<char> = Vec::new();
        match self {
            SettingsError::WindowCreation(e) => {
                push_str(&mut v, "窗口创建失败：");
                push_str(&mut v, e.as_str());
            },
            SettingsError::WebViewCreation(e) => {
                push_str(&mut v, "WebView2 创建失败：");
                push_str(&mut v, e.as_str());
            },
        }
        string_from_chars(v.as_slice())
    }
}

/// Why the guide window could not be shown.
#[derive(Debug)]
pub enum GuideError {
    WindowCreation(String),
    WebViewCreation(String),
}

impl GuideError {
    /// The message shown for the error.
    pub fn message(&self) -> (r: String)
        ensures
            r@ == match self {
                GuideError::WindowCreation(e) => "窗口创建失败："@ + e@,
                GuideError::WebViewCreation(e) => "WebView2 创建失败："@ + e@,
            },
    {
        let mut v: Vec<char> = Vec::new();
        match self {
            GuideError::WindowCreation(e) => {
                push_str(&mut v, "窗口创建失败：");
                push_str(&mut v, e.as_str());
            },
            GuideError::WebViewCreation(e) => {
                push_str(&mut v, "WebView2 创建失败：");
                push_str(&mut v, e.as_str());
            },
        }
        string_from_chars(v.as_slice())
    }
}

// ---------------------------------------------------------------------------
// Scripts handed to the page
// ---------------------------------------------------------------------------

fn bool_text(b: bool) -> (r: &'static str)
    ensures
        r@ == bool_text_spec(b),
{
    if b {
        "true"
    } else {
        "false"
    }
}

/// `true` or `false`.
pub open spec fn bool_text_spec(b: bool) -> Seq<char> {
    if b {
        "true"@
    } else {
        "false"@
    }
}

/// The JSON object of the form's values, members in name order:
/// `independent_service`, `log_path`, `node_path`, `port`, `tray_on_close`,
/// `work_dir`, the texts written as JSON strings.
pub open spec fn init_payload_spec(i: SettingsInit) -> Seq<char> {
    "{\"independent_service\":"@ + bool_text_spec(i.independent_service) + ",\"log_path\":"@
        + json_quote(i.log_path@) + ",\"node_path\":"@ + json_quote(i.node_path@) + ",\"port\":"@
        + dec(i.port as nat) + ",\"tray_on_close\":"@ + bool_text_spec(i.tray_on_close)
        + ",\"work_dir\":"@ + json_quote(i.work_dir@) + "}"@
}

fn push_json_string(v: &mut Vec<char>, s: &str)
    ensures
        final(v)@ == old(v)@ + json_quote(s@),
{
    match json_string(s) {
        Some(t) => push_str(v, t.as_str()),
        None => {},
    }
}

/// The form's values as a JSON object (see [`init_payload_spec`]).
pub fn init_payload(init: &SettingsInit) -> (r: String)
    ensures
        r@ == init_payload_spec(*init),
{
    let mut v: Vec<char> = Vec::new();
    push_str(&mut v, "{\"independent_service\":");
    push_str(&mut v, bool_text(init.independent_service));
    push_str(&mut v, ",\"log_path\":");
    push_json_string(&mut v, init.log_path.as_str());
    push_str(&mut v, ",\"node_path\":");
    push_json_string(&mut v, init.node_path.as_str());
    push_str(&mut v, ",\"port\":");
    push_u64(&mut v, init.port as u64);
    push_str(&mut v, ",\"tray_on_close\":");
    push_str(&mut v, bool_text(init.tray_on_close));
    push_str(&mut v, ",\"work_dir\":");
    push_json_string(&mut v, init.work_dir.as_str());
    push_str(&mut v, "}");
    string_from_chars(v.as_slice())
}

/// The JSON object of a status message: `error`, then `text` as a JSON string.
pub open spec fn status_payload_spec(text: Seq<char>, is_error: bool) -> Seq<char> {
    "{\"error\":"@ + bool_text_spec(is_error) + ",\"text\":"@ + json_quote(text) + "}"@
}

/// A status message as a JSON object (see [`status_payload_spec`]).
pub fn status_payload(text: &str, is_error: bool) -> (r: String)
    ensures
        r@ == status_payload_spec(text@, is_error),
{
    let mut v: Vec<char> = Vec::new();
    push_str(&mut v, "{\"error\":");
    push_str(&mut v, bool_text(is_error));
    push_str(&mut v, ",\"text\":");
    push_json_string(&mut v, text);
    push_str(&mut v, "}");
    string_from_chars(v.as_slice())
}

/// One character made safe inside a `<script>` block: `<` and `>` become the
/// JSON escapes `\u003c` and `\u003e`.
pub open spec fn angle_safe_char(c: char) -> Seq<char> {
    if c == '<' {
        "\\u003c"@
    } else if c == '>' {
        "\\u003e"@
    } else {
        seq![c]
    }
}

/// `t` with every angle bracket escaped.
pub open spec fn angle_safe(t: Seq<char>) -> Seq<char>
    decreases t.len(),
{
    if t.len() == 0 {
        Seq::empty()
    } else {
        angle_safe(t.drop_last()) + angle_safe_char(t.last())
    }
}

/// No angle bracket in `t`: nothing in it can open or close an HTML tag.
pub open spec fn no_angle(t: Seq<char>) -> bool {
    forall|k: int| 0 <= k < t.len() ==> t[k] != '<' && t[k] != '>'
}

/// Escaping leaves no angle bracket behind, whatever the text.
pub proof fn lemma_angle_safe_has_no_angle(t: Seq<char>)
    ensures
        no_angle(angle_safe(t)),
    decreases t.len(),
{
    if t.len() > 0 {
        lemma_angle_safe_has_no_angle(t.drop_last());
        reveal_strlit("\\u003c");
        reveal_strlit("\\u003e");
        let a = angle_safe(t.drop_last());
        let b = angle_safe_char(t.last());
        assert(no_angle(b));
        assert forall|k: int| 0 <= k < (a + b).len() implies (a + b)[k] != '<' && (a + b)[k] != '>' by {
            if k >= a.len() {
                assert((a + b)[k] == b[k - a.len()]);
            }
        }
    }
}

fn push_angle_safe(dst: &mut Vec<char>, t: &str)
    ensures
        final(dst)@ == old(dst)@ + angle_safe(t@),
{
    let v = chars_of(t);
    let ghost start = dst@;
    let mut i: usize = 0;
    while i < v.len()
        invariant
            i <= v.len(),
            v@ == t@,
            dst@ == start + angle_safe(v@.subrange(0, i as int)),
        decreases v.len() - i,
    {
        let c = v[i];
        let ghost before = dst@;
        if c == '<' {
            push_str(dst, "\\u003c");
        } else if c == '>' {
            push_str(dst, "\\u003e");
        } else {
            dst.push(c);
        }
        proof {
            let pre = v@.subrange(0, i as int);
            let nxt = v@.subrange(0, i + 1);
            assert(nxt.drop_last() =~= pre);
            assert(nxt.last() == c);
            assert(dst@ =~= before + angle_safe_char(c));
            assert(dst@ =~= start + angle_safe(nxt));
        }
        i = i + 1;
    }
    assert(v@.subrange(0, v@.len() as int) =~= v@);
}

/// The JSON literal of `s` made safe for a `<script>` block (an empty JSON
/// string when serialisation failed).
pub open spec fn js_literal_spec(s: Seq<char>) -> Seq<char> {
    angle_safe(json_quote(s))
}

/// `s` as a JavaScript string literal that is safe inside `<script>`: its JSON
/// literal, with `<` and `>` escaped so that no `</script>` can appear.
pub fn js_string_literal(s: &str) -> (r: String)
    ensures
        r@ == js_literal_spec(s@),
        no_angle(r@),
{
    let lit: String = match json_string(s) {
        Some(t) => t,
        None => String::new(),
    };
    let mut v: Vec<char> = Vec::new();
    push_angle_safe(&mut v, lit.as_str());
    proof {
        lemma_angle_safe_has_no_angle(lit@);
    }
    string_from_chars(v.as_slice())
}

pub open spec fn init_script_spec(i: SettingsInit) -> Seq<char> {
    "window.__INIT__ = JSON.parse("@ + js_literal_spec(
        init_payload_spec(i),
    ) + "); window.__applyInit && window.__applyInit();"@
}

/// The script that hands the form's values to the page: the values' JSON
/// text, quoted again as a script-safe literal and parsed by the page. No
/// angle bracket appears in it, so no path or value can end the script block.
pub fn init_script(init: &SettingsInit) -> (r: String)
    ensures
        r@ == init_script_spec(*init),
        no_angle(r@),
{
    let payload = init_payload(init);
    let lit = js_string_literal(payload.as_str());
    let mut v: Vec<char> = Vec::new();
    push_str(&mut v, "window.__INIT__ = JSON.parse(");
    push_str(&mut v, lit.as_str());
    push_str(&mut v, "); window.__applyInit && window.__applyInit();");
    proof {
        reveal_strlit("window.__INIT__ = JSON.parse(");
        reveal_strlit("); window.__applyInit && window.__applyInit();");
        let p1 = "window.__INIT__ = JSON.parse("@;
        let p3 = "); window.__applyInit && window.__applyInit();"@;
        assert(no_angle(p1));
        assert(no_angle(p3));
        assert forall|k: int| 0 <= k < v@.len() implies v@[k] != '<' && v@[k] != '>' by {
            if k < p1.len() {
                assert(v@[k] == p1[k]);
            } else if k < p1.len() + lit@.len() {
                assert(v@[k] == lit@[k - p1.len()]);
            } else {
                assert(v@[k] == p3[k - p1.len() - lit@.len()]);
            }
        }
    }
    string_from_chars(v.as_slice())
}

pub open spec fn status_script_spec(text: Seq<char>, is_error: bool) -> Seq<char> {
    "(function(){try{var p=JSON.parse("@ + js_literal_spec(status_payload_spec(text, is_error))
        + ");window.__setStatus && window.__setStatus(p);}catch(e){}})();"@
}

/// The script that shows a status line on the page (an error when
/// `is_error`); like [`init_script`], it holds no angle bracket.
pub fn status_script(text: &str, is_error: bool) -> (r: String)
    ensures
        r@ == status_script_spec(text@, is_error),
        no_angle(r@),
{
    let payload = status_payload(text, is_error);
    let lit = js_string_literal(payload.as_str());
    let mut v: Vec<char> = Vec::new();
    push_str(&mut v, "(function(){try{var p=JSON.parse(");
    push_str(&mut v, lit.as_str());
    push_str(&mut v, ");window.__setStatus && window.__setStatus(p);}catch(e){}})();");
    proof {
        reveal_strlit("(function(){try{var p=JSON.parse(");
        reveal_strlit(");window.__setStatus && window.__setStatus(p);}catch(e){}})();");
        let p1 = "(function(){try{var p=JSON.parse("@;
        let p3 = ");window.__setStatus && window.__setStatus(p);}catch(e){}})();"@;
        assert(no_angle(p1));
        assert(no_angle(p3));
        assert forall|k: int| 0 <= k < v@.len() implies v@[k] != '<' && v@[k] != '>' by {
            if k < p1.len() {
                assert(v@[k] == p1[k]);
            } else if k < p1.len() + lit@.len() {
                assert(v@[k] == lit@[k - p1.len()]);
            } else {
                assert(v@[k] == p3[k - p1.len() - lit@.len()]);
            }
        }
    }
    string_from_chars(v.as_slice())
}

} // verus!
