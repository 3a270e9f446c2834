//! What the embedded harness window decides from text: the scripts it runs in
//! the page, how it reads their answers (authentication state, page colour),
//! and which navigations it allows.
use vstd::prelude::*;

use crate::text::{
    chars_of, contains, lower_chars, lower_seq, parse_uint, parse_uint_chars, seqs_view,
    slice_to_vec, split_chars, split_on, starts_with, starts_with_chars, to_upper, trim,
    trim_bounds, unsigned_body, upper, upper_seq,
};

verus! {

/// Injected into every page: keeps the desktop layout (side bar shown) even in
/// narrow or scaled windows.
pub const FORCE_DESKTOP_JS: &'static str = r#"
(function(){
  var css='body.force-desktop aside,body.force-desktop [class*="sidebar" i],'+
  'body.force-desktop [class*="rail" i],body.force-desktop [class*="drawer" i]'+
  '{display:flex!important;transform:none!important;visibility:visible!important;'+
  'opacity:1!important;pointer-events:auto!important;max-width:none!important}';
  var st=document.createElement('style');st.textContent=css;
  (document.head||document.documentElement).appendChild(st);
  function apply(){if(document.body)document.body.classList.add('force-desktop');}
  if(document.body)apply();
  document.addEventListener('DOMContentLoaded',apply);
})();
"#;

/// Samples the page's background colour (empty while the page is not ready).
pub const SAMPLE_THEME_JS: &'static str = r#"
(function(){try{var b=getComputedStyle(document.body).backgroundColor;
if(!b||b==='rgba(0, 0, 0, 0)'||b==='transparent')b=getComputedStyle(document.documentElement).backgroundColor;
if(!b||b==='rgba(0, 0, 0, 0)'||b==='transparent')return '';return b;}catch(e){return '';}})()
"#;

/// Answers `AUTH_REQUIRED`, `OK` or `UNKNOWN` from inside the page: dsh's
/// 401 page carries the fixed text "authentication required".
pub const AUTH_CHECK_JS: &'static str = r#"
(function(){try{
  var t=(document.body&&document.body.innerText)||'';
  if(t.indexOf('authentication required')>=0)return 'AUTH_REQUIRED';
  if(document.querySelector('#app,#root,[data-dsh-root]'))return 'OK';
  return t.length>=1?'OK':'UNKNOWN';
}catch(e){return 'UNKNOWN';}})()
"#;

/// A sampled page colour; `None` while the page is not ready.
pub type ThemeSampleResult = Option<(u8, u8, u8)>;

/// The authentication state of the embedded page.
#[derive(Debug, Clone, Copy, PartialEq, Eq, Structural)]
pub enum AuthState {
    /// The page loaded (tokenised address, or a valid session cookie).
    Authenticated,
    /// The page is dsh's "authentication required" page.
    Required,
    /// Cannot tell yet (page not rendered, script failed): check again later.
    Unknown,
}

/// `s` with every leading `c` removed.
pub open spec fn strip_lead(s: Seq<char>, c: char) -> Seq<char>
    decreases s.len(),
{
    if s.len() > 0 && s[0] == c {
        strip_lead(s.drop_first(), c)
    } else {
        s
    }
}

/// `s` with every trailing `c` removed.
pub open spec fn strip_trail(s: Seq<char>, c: char) -> Seq<char>
    decreases s.len(),
{
    if s.len() > 0 && s.last() == c {
        strip_trail(s.drop_last(), c)
    } else {
        s
    }
}

/// The answer of a page script as a text: the script value arrives JSON-encoded,
/// so surrounding quotes go, with white space around and inside them.
pub open spec fn unquote(s: Seq<char>) -> Seq<char> {
    trim(strip_trail(strip_lead(trim(s), '"'), '"'))
}

proof fn lemma_strip_lead_skip(s: Seq<char>, c: char, i: int)
    requires
        0 <= i <= s.len(),
        forall|k: int| 0 <= k < i ==> #[trigger] s[k] == c,
    ensures
        strip_lead(s, c) == strip_lead(s.subrange(i, s.len() as int), c),
    decreases i,
{
    if i > 0 {
        let t = s.drop_first();
        assert forall|k: int| 0 <= k < i - 1 implies #[trigger] t[k] == c by {
            assert(t[k] == s[k + 1]);
        }
        lemma_strip_lead_skip(t, c, i - 1);
        assert(t.subrange(i - 1, t.len() as int) =~= s.subrange(i, s.len() as int));
    } else {
        assert(s.subrange(0, s.len() as int) =~= s);
    }
}

proof fn lemma_strip_trail_skip(s: Seq<char>, c: char, e: int)
    requires
        0 <= e <= s.len(),
        forall|k: int| e <= k < s.len() ==> #[trigger] s[k] == c,
    ensures
        strip_trail(s, c) == strip_trail(s.subrange(0, e), c),
    decreases s.len() - e,
{
    if e < s.len() {
        let t = s.drop_last();
        assert forall|k: int| e <= k < t.len() implies #[trigger] t[k] == c by {
            assert(t[k] == s[k]);
        }
        lemma_strip_trail_skip(t, c, e);
        assert(t.subrange(0, e) =~= s.subrange(0, e));
    } else {
        assert(s.subrange(0, e) =~= s);
    }
}

/// Range of `s[lo..hi)` left after removing `c` at both ends (`str::trim_matches`).
fn strip_char_bounds(s: &[char], lo: usize, hi: usize, c: char) -> (r: (usize, usize))
    requires
        lo <= hi <= s.len(),
    ensures
        lo <= r.0 <= r.1 <= hi,
        s@.subrange(r.0 as int, r.1 as int) == strip_trail(
            strip_lead(s@.subrange(lo as int, hi as int), c),
            c,
        ),
{
    let ghost sub = s@.subrange(lo as int, hi as int);
    let mut a = lo;
    while a < hi && s[a] == c
        invariant
            lo <= a <= hi <= s.len(),
            sub == s@.subrange(lo as int, hi as int),
            forall|k: int| lo <= k < a ==> #[trigger] s@[k] == c,
        decreases hi - a,
    {
        a = a + 1;
    }
    proof {
        assert forall|k: int| 0 <= k < a - lo implies #[trigger] sub[k] == c by {
            assert(sub[k] == s@[lo + k]);
        }
        lemma_strip_lead_skip(sub, c, a - lo);
        assert(sub.subrange(a - lo, sub.len() as int) =~= s@.subrange(a as int, hi as int));
        if a < hi {
            assert(s@.subrange(a as int, hi as int)[0] != c);
        }
    }
    let ghost mid = s@.subrange(a as int, hi as int);
    assert(strip_lead(sub, c) == mid);
    let mut b = hi;
    while b > a && s[b - 1] == c
        invariant
            lo <= a <= b <= hi <= s.len(),
            mid == s@.subrange(a as int, hi as int),
            forall|k: int| b <= k < hi ==> #[trigger] s@[k] == c,
        decreases b - a,
    {
        b = b - 1;
    }
    proof {
        assert forall|k: int| b - a <= k < mid.len() implies #[trigger] mid[k] == c by {
            assert(mid[k] == s@[a + k]);
        }
        lemma_strip_trail_skip(mid, c, b - a);
        assert(mid.subrange(0, b - a) =~= s@.subrange(a as int, b as int));
        if b > a {
            assert(s@.subrange(a as int, b as int).last() != c);
        }
    }
    (a, b)
}

/// The characters of [`unquote`]`(raw)`.
fn unquoted_chars(raw: &str) -> (r: Vec<char>)
    ensures
        r@ == unquote(raw@),
{
    let v = chars_of(raw);
    let (a, b) = trim_bounds(v.as_slice(), 0, v.len());
    proof {
        assert(v@.subrange(0, v@.len() as int) =~= v@);
    }
    let (c, d) = strip_char_bounds(v.as_slice(), a, b, '"');
    let (e, f) = trim_bounds(v.as_slice(), c, d);
    slice_to_vec(v.as_slice(), e, f)
}

/// The characters upper-cased (`str::to_ascii_uppercase`).
fn upper_chars(v: &[char]) -> (r: Vec<char>)
    ensures
        r@ == upper_seq(v@),
{
    let mut out: Vec<char> = Vec::new();
    let mut i: usize = 0;
    while i < v.len()
        invariant
            i <= v.len(),
            out@.len() == i,
            forall|k: int| 0 <= k < i ==> out@[k] == upper(#[trigger] v@[k]),
        decreases v.len() - i,
    {
        out.push(to_upper(v[i]));
        i = i + 1;
    }
    assert(out@ =~= upper_seq(v@));
    out
}

fn chars_equal_str(a: &[char], b: &str) -> (r: bool)
    ensures
        r == (a@ == b@),
{
    crate::text::chars_eq_str(a, b)
}

/// The state named by the (upper-cased, unquoted) answer of [`AUTH_CHECK_JS`].
pub open spec fn auth_state_of(t: Seq<char>) -> AuthState {
    if t == "AUTH_REQUIRED"@ {
        AuthState::Required
    } else if t == "OK"@ {
        AuthState::Authenticated
    } else {
        AuthState::Unknown
    }
}

/// Reads the answer of [`AUTH_CHECK_JS`]: anything not recognised is
/// `Unknown`, never a guess.
pub fn parse_auth_state(raw: &str) -> (r: AuthState)
    ensures
        r == auth_state_of(upper_seq(unquote(raw@))),
{
    let t = unquoted_chars(raw);
    let u = upper_chars(t.as_slice());
    if chars_equal_str(u.as_slice(), "AUTH_REQUIRED") {
        AuthState::Required
    } else if chars_equal_str(u.as_slice(), "OK") {
        AuthState::Authenticated
    } else {
        AuthState::Unknown
    }
}

/// The navigations the embedded window allows: loopback addresses over
/// http(s) and documents that make no network request.
pub open spec fn harness_navigation_allowed(target: Seq<char>) -> bool {
    let u = lower_seq(trim(target));
    ||| u.len() == 0
    ||| u == "about:blank"@
    ||| starts_with(u, "data:text/html"@)
    ||| starts_with(u, "blob:"@)
    ||| starts_with(u, "http://127.0.0.1:"@)
    ||| starts_with(u, "http://localhost:"@)
    ||| starts_with(u, "http://[::1]:"@)
    ||| starts_with(u, "https://127.0.0.1:"@)
    ||| starts_with(u, "https://localhost:"@)
    ||| starts_with(u, "https://[::1]:"@)
}

fn starts_str(u: &[char], p: &str) -> (r: bool)
    ensures
        r == starts_with(u@, p@),
{
    let pv = chars_of(p);
    starts_with_chars(u, pv.as_slice())
}

/// Whether the embedded window may navigate to `target`.
pub fn is_allowed_navigation(target: &str) -> (r: bool)
    ensures
        r == harness_navigation_allowed(target@),
{
    let v = chars_of(target);
    let (a, b) = trim_bounds(v.as_slice(), 0, v.len());
    proof {
        assert(v@.subrange(0, v@.len() as int) =~= v@);
    }
    let t = slice_to_vec(v.as_slice(), a, b);
    let u = lower_chars(t.as_slice());
    let u = u.as_slice();
    u.len() == 0 || chars_equal_str(u, "about:blank") || starts_str(u, "data:text/html")
        || starts_str(u, "blob:") || starts_str(u, "http://127.0.0.1:") || starts_str(
        u,
        "http://localhost:",
    ) || starts_str(u, "http://[::1]:") || starts_str(u, "https://127.0.0.1:") || starts_str(
        u,
        "https://localhost:",
    ) || starts_str(u, "https://[::1]:")
}

// ---------------------------------------------------------------------------
// Page colours
// ---------------------------------------------------------------------------

pub open spec fn is_hex(c: char) -> bool {
    ('0' <= c && c <= '9') || ('a' <= c && c <= 'f') || ('A' <= c && c <= 'F')
}

pub open spec fn hex_val(c: char) -> nat {
    if '0' <= c && c <= '9' {
        (c as u32 - 48) as nat
    } else if 'a' <= c && c <= 'f' {
        (c as u32 - 87) as nat
    } else {
        (c as u32 - 55) as nat
    }
}

pub open spec fn hexes_val(s: Seq<char>) -> nat
    decreases s.len(),
{
    if s.len() == 0 {
        0
    } else {
        hexes_val(s.drop_last()) * 16 + hex_val(s.last())
    }
}

/// `u32::from_str_radix(s, 16)` for texts of at most six characters.
pub open spec fn parse_hex(s: Seq<char>) -> Option<nat> {
    let b = unsigned_body(s);
    if b.len() == 0 || exists|i: int| 0 <= i < b.len() && !is_hex(#[trigger] b[i]) {
        None
    } else {
        Some(hexes_val(b))
    }
}

/// `#rrggbb` or `#rgb` (each short digit doubled).
pub open spec fn hex_color(rest: Seq<char>) -> Option<(u8, u8, u8)> {
    if rest.len() == 6 {
        match parse_hex(rest) {
            Some(v) => Some(
                (((v / 65536) % 256) as u8, ((v / 256) % 256) as u8, (v % 256) as u8),
            ),
            None => None,
        }
    } else if rest.len() == 3 {
        match parse_hex(rest) {
            Some(v) => Some(
                (
                    (((v / 256) % 16) * 17) as u8,
                    (((v / 16) % 16) * 17) as u8,
                    ((v % 16) * 17) as u8,
                ),
            ),
            None => None,
        }
    } else {
        None
    }
}

/// The inside of `rgb(...)` / `rgba(...)`: the first three comma-separated
/// parts as bytes; extra parts (alpha) are ignored.
pub open spec fn rgb_body(rest: Seq<char>) -> Option<(u8, u8, u8)> {
    if rest.len() > 0 && rest.last() == ')' {
        let parts = split_on(rest.drop_last(), ',');
        if parts.len() >= 3 {
            match (
                parse_uint(trim(parts[0]), 255),
                parse_uint(trim(parts[1]), 255),
                parse_uint(trim(parts[2]), 255),
            ) {
                (Some(r), Some(g), Some(b)) => Some((r as u8, g as u8, b as u8)),
                _ => None,
            }
        } else {
            None
        }
    } else {
        None
    }
}

/// A CSS colour in the forms a computed style gives (`rgb`, `rgba`, hex).
pub open spec fn css_color(s0: Seq<char>) -> Option<(u8, u8, u8)> {
    let s = trim(s0);
    if starts_with(s, "rgba("@) {
        rgb_body(s.subrange(5, s.len() as int))
    } else if starts_with(s, "rgb("@) {
        rgb_body(s.subrange(4, s.len() as int))
    } else if starts_with(s, "#"@) {
        hex_color(s.subrange(1, s.len() as int))
    } else {
        None
    }
}

/// The colour sampled by [`SAMPLE_THEME_JS`]; `None` for an empty or null
/// answer (page not ready) and for text that is no colour.
pub open spec fn theme_result(raw: Seq<char>) -> Option<(u8, u8, u8)> {
    let t = unquote(raw);
    if t.len() == 0 || t == "null"@ {
        None
    } else {
        css_color(t)
    }
}

pub open spec fn pow16(n: nat) -> nat
    decreases n,
{
    if n == 0 {
        1
    } else {
        16 * pow16((n - 1) as nat)
    }
}

proof fn lemma_hexes_bound(s: Seq<char>)
    requires
        forall|i: int| 0 <= i < s.len() ==> is_hex(#[trigger] s[i]),
    ensures
        hexes_val(s) < pow16(s.len()),
    decreases s.len(),
{
    if s.len() > 0 {
        let t = s.drop_last();
        assert forall|i: int| 0 <= i < t.len() implies is_hex(#[trigger] t[i]) by {
            assert(t[i] == s[i]);
        }
        lemma_hexes_bound(t);
        assert(is_hex(s.last()));
    }
}

proof fn lemma_hexes_prefix(b: Seq<char>, i: int)
    requires
        0 <= i < b.len(),
    ensures
        hexes_val(b.subrange(0, i + 1)) == hexes_val(b.subrange(0, i)) * 16 + hex_val(b[i]),
{
    let t = b.subrange(0, i + 1);
    assert(t.drop_last() =~= b.subrange(0, i));
}

fn hex_digit(c: char) -> (r: Option<u32>)
    ensures
        match r {
            Some(d) => is_hex(c) && d == hex_val(c),
            None => !is_hex(c),
        },
{
    if '0' <= c && c <= '9' {
        Some(c as u32 - 48)
    } else if 'a' <= c && c <= 'f' {
        Some(c as u32 - 87)
    } else if 'A' <= c && c <= 'F' {
        Some(c as u32 - 55)
    } else {
        None
    }
}

/// Parses at most six hexadecimal digits, with an optional leading `+`.
fn parse_hex_chars(s: &[char]) -> (r: Option<u32>)
    requires
        s.len() <= 6,
    ensures
        match r {
            Some(v) => parse_hex(s@) == Some(v as nat),
            None => parse_hex(s@) is None,
        },
{
    let start: usize = if s.len() > 1 && s[0] == '+' {
        1
    } else {
        0
    };
    let ghost b = unsigned_body(s@);
    assert(b =~= s@.subrange(start as int, s@.len() as int));
    if start == s.len() {
        return None;
    }
    let mut acc: u32 = 0;
    let mut i = start;
    while i < s.len()
        invariant
            start <= i <= s.len() <= 6,
            b == s@.subrange(start as int, s@.len() as int),
            b == unsigned_body(s@),
            start < s.len(),
            acc as nat == hexes_val(b.subrange(0, i - start)),
            forall|k: int| 0 <= k < i - start ==> is_hex(#[trigger] b[k]),
        decreases s.len() - i,
    {
        let c = s[i];
        assert(b[i - start] == s@[i as int]);
        let d = match hex_digit(c) {
            Some(d) => d,
            None => {
                assert(!is_hex(unsigned_body(s@)[i - start]));
                return None;
            },
        };
        proof {
            lemma_hexes_prefix(b, i - start);
            let pre = b.subrange(0, i - start);
            assert forall|k: int| 0 <= k < pre.len() implies is_hex(#[trigger] pre[k]) by {
                assert(pre[k] == b[k]);
            }
            lemma_hexes_bound(pre);
            reveal_with_fuel(pow16, 7);
            assert(pow16(pre.len()) <= 1048576) by {
                if pre.len() == 0 {
                } else if pre.len() == 1 {
                } else if pre.len() == 2 {
                } else if pre.len() == 3 {
                } else if pre.len() == 4 {
                } else {
                    assert(pre.len() == 5);
                }
            }
        }
        acc = acc * 16 + d;
        i = i + 1;
    }
    assert(b.subrange(0, b.len() as int) =~= b);
    Some(acc)
}

fn hex_color_chars(rest: &[char]) -> (r: Option<(u8, u8, u8)>)
    ensures
        r == hex_color(rest@),
{
    if rest.len() == 6 {
        match parse_hex_chars(rest) {
            Some(v) => Some(
                (((v / 65536) % 256) as u8, ((v / 256) % 256) as u8, (v % 256) as u8),
            ),
            None => None,
        }
    } else if rest.len() == 3 {
        match parse_hex_chars(rest) {
            Some(v) => {
                let r = ((v / 256) % 16) * 17;
                let g = ((v / 16) % 16) * 17;
                let b = (v % 16) * 17;
                Some((r as u8, g as u8, b as u8))
            },
            None => None,
        }
    } else {
        None
    }
}

fn trimmed_byte(part: &Vec<char>) -> (r: Option<u64>)
    ensures
        match r {
            Some(v) => parse_uint(trim(part@), 255) == Some(v as nat),
            None => parse_uint(trim(part@), 255) is None,
        },
{
    let (a, b) = trim_bounds(part.as_slice(), 0, part.len());
    proof {
        assert(part@.subrange(0, part@.len() as int) =~= part@);
    }
    let t = slice_to_vec(part.as_slice(), a, b);
    parse_uint_chars(t.as_slice(), 255)
}

fn rgb_body_chars(rest: &[char]) -> (r: Option<(u8, u8, u8)>)
    ensures
        r == rgb_body(rest@),
{
    if rest.len() == 0 || rest[rest.len() - 1] != ')' {
        return None;
    }
    let inner = slice_to_vec(rest, 0, rest.len() - 1);
    assert(inner@ =~= rest@.drop_last());
    let parts = split_chars(inner.as_slice(), ',');
    if parts.len() < 3 {
        return None;
    }
    assert(seqs_view(parts@)[0] == parts@[0]@);
    assert(seqs_view(parts@)[1] == parts@[1]@);
    assert(seqs_view(parts@)[2] == parts@[2]@);
    let r = trimmed_byte(&parts[0]);
    let g = trimmed_byte(&parts[1]);
    let b = trimmed_byte(&parts[2]);
    match (r, g, b) {
        (Some(r), Some(g), Some(b)) => Some((r as u8, g as u8, b as u8)),
        _ => None,
    }
}

fn css_color_chars(s0: &[char]) -> (r: Option<(u8, u8, u8)>)
    ensures
        r == css_color(s0@),
{
    let (a, b) = trim_bounds(s0, 0, s0.len());
    proof {
        assert(s0@.subrange(0, s0@.len() as int) =~= s0@);
    }
    let s = slice_to_vec(s0, a, b);
    let sl = s.as_slice();
    if starts_str(sl, "rgba(") {
        proof {
            reveal_strlit("rgba(");
        }
        let rest = slice_to_vec(sl, 5, sl.len());
        rgb_body_chars(rest.as_slice())
    } else if starts_str(sl, "rgb(") {
        proof {
            reveal_strlit("rgb(");
        }
        let rest = slice_to_vec(sl, 4, sl.len());
        rgb_body_chars(rest.as_slice())
    } else if starts_str(sl, "#") {
        proof {
            reveal_strlit("#");
        }
        let rest = slice_to_vec(sl, 1, sl.len());
        hex_color_chars(rest.as_slice())
    } else {
        None
    }
}

/// Reads a CSS colour (`rgb(r, g, b)`, `rgba(r, g, b, a)`, `#rrggbb`, `#rgb`).
pub fn parse_css_color(s: &str) -> (r: Option<(u8, u8, u8)>)
    ensures
        r == css_color(s@),
{
    let v = chars_of(s);
    css_color_chars(v.as_slice())
}

/// Reads the answer of [`SAMPLE_THEME_JS`].
pub fn parse_theme_result(raw: &str) -> (r: ThemeSampleResult)
    ensures
        r == theme_result(raw@),
{
    let t = unquoted_chars(raw);
    if t.len() == 0 || chars_equal_str(t.as_slice(), "null") {
        return None;
    }
    css_color_chars(t.as_slice())
}

/// The title-bar colour for DWM (`COLORREF`, `0x00BBGGRR`).
pub fn colorref(r: u8, g: u8, b: u8) -> (c: u32)
    ensures
        c == b as nat * 65536 + g as nat * 256 + r as nat,
{
    (b as u32) * 65536 + (g as u32) * 256 + (r as u32)
}

/// The title text colour: white on a dark bar, black on a light one.
pub fn title_text_colorref(dark: bool) -> (c: u32)
    ensures
        c == if dark {
            0x00FF_FFFFu32
        } else {
            0u32
        },
{
    if dark {
        0x00FF_FFFF
    } else {
        0
    }
}

/// Why the embedded window could not be shown.
#[derive(Debug)]
pub enum HarnessError {
    WindowCreation(String),
    WebViewCreation(String),
    /// The WebView2 runtime is missing (the user can install it).
    WebView2RuntimeMissing,
}

impl HarnessError {
    /// The message shown for the error.
    pub fn message(&self) -> (r: String)
        ensures
            r@ == match self {
                HarnessError::WindowCreation(e) => "窗口创建失败："@ + e@,
                HarnessError::WebViewCreation(e) => "WebView2 创建失败："@ + e@,
                HarnessError::WebView2RuntimeMissing => "WebView2 运行时缺失，请安装 Edge WebView2 Runtime"@,
            },
    {
        let mut v: Vec<char> = Vec::new();
        match self {
            HarnessError::WindowCreation(e) => {
                crate::text::push_str(&mut v, "窗口创建失败：");
                crate::text::push_str(&mut v, e.as_str());
            },
            HarnessError::WebViewCreation(e) => {
                crate::text::push_str(&mut v, "WebView2 创建失败：");
                crate::text::push_str(&mut v, e.as_str());
            },
            HarnessError::WebView2RuntimeMissing => {
                crate::text::push_str(&mut v, "WebView2 运行时缺失，请安装 Edge WebView2 Runtime");
            },
        }
        crate::text::string_from_chars(v.as_slice())
    }
}

} // verus!
