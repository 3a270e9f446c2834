//! Credential redaction for log lines.
//!
//! Two shapes are masked:
//! 1. `key=value` / `key: value` / `"key": "value"` where the key is one of
//!    [`sensitive_key`] (compared ASCII case-insensitively, starting at a word boundary);
//! 2. HTTP authentication schemes `Bearer <token>` / `Basic <base64>`.
//!
//! In both cases the value (up to the next terminator, see [`is_term`]) becomes `***`.
use std::borrow::Cow;
use vstd::prelude::*;

use crate::text::{
    chars_of, eq_ic, is_whitespace, is_ws, lower, match_at_ic, matches_at_ic, push_all, slice_to_vec,
    string_from_chars,
};

verus! {

/// Number of sensitive key names.
pub const SENSITIVE_KEY_COUNT: usize = 18;

/// The sensitive key names, lower case, in the order in which they are tried.
pub open spec fn key_spec(k: int) -> Seq<char> {
    if k == 0 {
        "token"@
    } else if k == 1 {
        "access_token"@
    } else if k == 2 {
        "refresh_token"@
    } else if k == 3 {
        "id_token"@
    } else if k == 4 {
        "api_key"@
    } else if k == 5 {
        "apikey"@
    } else if k == 6 {
        "secret"@
    } else if k == 7 {
        "client_secret"@
    } else if k == 8 {
        "password"@
    } else if k == 9 {
        "passwd"@
    } else if k == 10 {
        "pwd"@
    } else if k == 11 {
        "pin"@
    } else if k == 12 {
        "cookie"@
    } else if k == 13 {
        "authorization"@
    } else if k == 14 {
        "auth"@
    } else if k == 15 {
        "session_key"@
    } else if k == 16 {
        "private_key"@
    } else {
        "credential"@
    }
}

/// The `k`-th sensitive key name.
pub fn sensitive_key(k: usize) -> (r: &'static str)
    requires
        k < SENSITIVE_KEY_COUNT,
    ensures
        r@ == key_spec(k as int),
{
    match k {
        0 => "token",
        1 => "access_token",
        2 => "refresh_token",
        3 => "id_token",
        4 => "api_key",
        5 => "apikey",
        6 => "secret",
        7 => "client_secret",
        8 => "password",
        9 => "passwd",
        10 => "pwd",
        11 => "pin",
        12 => "cookie",
        13 => "authorization",
        14 => "auth",
        15 => "session_key",
        16 => "private_key",
        _ => "credential",
    }
}

/// `bearer ` (authentication scheme, lower case).
pub open spec fn bearer() -> Seq<char> {
    seq!['b', 'e', 'a', 'r', 'e', 'r', ' ']
}

/// `basic ` (authentication scheme, lower case).
pub open spec fn basic() -> Seq<char> {
    seq!['b', 'a', 's', 'i', 'c', ' ']
}

/// The replacement written in place of a secret value.
pub open spec fn mask() -> Seq<char> {
    seq!['*', '*', '*']
}

/// Characters that end a secret value.
pub open spec fn is_term(c: char) -> bool {
    is_ws(c) || c == '&' || c == '"' || c == '\'' || c == ',' || c == ';' || c == ')' || c
        == ']' || c == '}' || c == '>'
}

pub fn is_value_terminator(c: char) -> (r: bool)
    ensures
        r == is_term(c),
{
    is_whitespace(c) || c == '&' || c == '"' || c == '\'' || c == ',' || c == ';' || c == ')'
        || c == ']' || c == '}' || c == '>'
}

/// First terminator at or after `k`, or the end of the text.
pub open spec fn value_end(s: Seq<char>, k: int) -> int
    decreases s.len() - k,
{
    if k >= s.len() {
        s.len() as int
    } else if is_term(s[k]) {
        k
    } else {
        value_end(s, k + 1)
    }
}

/// Skips spaces and tabs.
pub open spec fn skip_blank(s: Seq<char>, k: int) -> int
    decreases s.len() - k,
{
    if 0 <= k < s.len() && (s[k] == ' ' || s[k] == '\t') {
        skip_blank(s, k + 1)
    } else {
        k
    }
}

/// Skips spaces, tabs and quotes (the run before a value).
pub open spec fn skip_blank_quote(s: Seq<char>, k: int) -> int
    decreases s.len() - k,
{
    if 0 <= k < s.len() && (s[k] == ' ' || s[k] == '\t' || s[k] == '"' || s[k] == '\'') {
        skip_blank_quote(s, k + 1)
    } else {
        k
    }
}

/// A value that starts at `k` ends between `k` and the end of the text.
pub proof fn lemma_value_end_bounds(s: Seq<char>, k: int)
    requires
        0 <= k <= s.len(),
    ensures
        k <= value_end(s, k) <= s.len(),
    decreases s.len() - k,
{
    if k < s.len() && !is_term(s[k]) {
        lemma_value_end_bounds(s, k + 1);
    }
}

/// Skipping blanks from `k` stays between `k` and the end of the text.
pub proof fn lemma_skip_blank_bounds(s: Seq<char>, k: int)
    requires
        0 <= k <= s.len(),
    ensures
        k <= skip_blank(s, k) <= s.len(),
    decreases s.len() - k,
{
    if k < s.len() && (s[k] == ' ' || s[k] == '\t') {
        lemma_skip_blank_bounds(s, k + 1);
    }
}

/// Skipping blanks and quotes from `k` stays between `k` and the end of the text.
pub proof fn lemma_skip_blank_quote_bounds(s: Seq<char>, k: int)
    requires
        0 <= k <= s.len(),
    ensures
        k <= skip_blank_quote(s, k) <= s.len(),
    decreases s.len() - k,
{
    if k < s.len() && (s[k] == ' ' || s[k] == '\t' || s[k] == '"' || s[k] == '\'') {
        lemma_skip_blank_quote_bounds(s, k + 1);
    }
}

/// Outcome of trying one key name at a position.
pub enum KeyStep {
    /// This key does not apply here; try the next one.
    Next,
    /// The text ended right after the key: no key applies at this position.
    Abort,
    /// The secret value starts at this index.
    Found(int),
}

/// Start of the value after an optional authentication scheme at `k`.
pub open spec fn after_scheme(s: Seq<char>, k: int) -> int {
    if matches_at_ic(s, k, bearer()) {
        k + 7
    } else if matches_at_ic(s, k, basic()) {
        k + 6
    } else {
        k
    }
}

/// Tries key `key` at position `pos` of `s`.
pub open spec fn try_key(s: Seq<char>, pos: int, key: Seq<char>) -> KeyStep {
    if !matches_at_ic(s, pos, key) {
        KeyStep::Next
    } else {
        let i1 = skip_blank(s, pos + key.len());
        let i2 = if i1 < s.len() && (s[i1] == '"' || s[i1] == '\'') {
            skip_blank(s, i1 + 1)
        } else {
            i1
        };
        if i2 >= s.len() {
            KeyStep::Abort
        } else if s[i2] != '=' && s[i2] != ':' {
            KeyStep::Next
        } else {
            KeyStep::Found(after_scheme(s, skip_blank_quote(s, i2 + 1)))
        }
    }
}

/// Tries the keys from index `k` on.
pub open spec fn key_value_from(s: Seq<char>, pos: int, k: int) -> Option<int>
    decreases 18 - k,
{
    if k >= 18 {
        None
    } else {
        match try_key(s, pos, key_spec(k)) {
            KeyStep::Next => key_value_from(s, pos, k + 1),
            KeyStep::Abort => None,
            KeyStep::Found(v) => Some(v),
        }
    }
}

pub open spec fn is_word_char(c: char) -> bool {
    ('0' <= c && c <= '9') || ('a' <= c && c <= 'z') || ('A' <= c && c <= 'Z') || c == '_'
}

/// Start of the secret value if a sensitive `key = value` begins at `pos`.
pub open spec fn key_value_at(s: Seq<char>, pos: int) -> Option<int> {
    if pos > 0 && is_word_char(s[pos - 1]) {
        None
    } else {
        key_value_from(s, pos, 0)
    }
}

/// A sensitive key is looked for at `pos` exactly when `pos` starts a word:
/// only an ASCII letter, digit or `_` right before it rules the position out
/// (so a key after a space, `&`, `?`, a quote or at the start is tried).
pub proof fn lemma_keys_start_at_word_boundaries(s: Seq<char>, pos: int)
    requires
        0 <= pos < s.len(),
    ensures
        (pos > 0 && (('0' <= s[pos - 1] && s[pos - 1] <= '9') || ('a' <= s[pos - 1] && s[pos - 1] <= 'z') || ('A'
            <= s[pos - 1] && s[pos - 1] <= 'Z') || s[pos - 1] == '_')) ==> key_value_at(s, pos) is None,
        !(pos > 0 && (('0' <= s[pos - 1] && s[pos - 1] <= '9') || ('a' <= s[pos - 1] && s[pos - 1] <= 'z') || ('A'
            <= s[pos - 1] && s[pos - 1] <= 'Z') || s[pos - 1] == '_')) ==> key_value_at(s, pos) == key_value_from(
            s,
            pos,
            0,
        ),
{
}

/// The first characters of a text matched case-insensitively, one by one.
proof fn lemma_match_head(s: Seq<char>, pos: int, p: Seq<char>)
    requires
        matches_at_ic(s, pos, p),
    ensures
        p.len() > 0 ==> lower(s[pos]) == lower(p[0]),
        p.len() > 1 ==> lower(s[pos + 1]) == lower(p[1]),
        p.len() > 2 ==> lower(s[pos + 2]) == lower(p[2]),
        p.len() > 3 ==> lower(s[pos + 3]) == lower(p[3]),
        p.len() > 4 ==> lower(s[pos + 4]) == lower(p[4]),
        p.len() > 5 ==> lower(s[pos + 5]) == lower(p[5]),
{
    if p.len() > 0 { assert(eq_ic(s[pos + 0], p[0])); }
    if p.len() > 1 { assert(eq_ic(s[pos + 1], p[1])); }
    if p.len() > 2 { assert(eq_ic(s[pos + 2], p[2])); }
    if p.len() > 3 { assert(eq_ic(s[pos + 3], p[3])); }
    if p.len() > 4 { assert(eq_ic(s[pos + 4], p[4])); }
    if p.len() > 5 { assert(eq_ic(s[pos + 5], p[5])); }
}

/// Where key `j` stands with `=` right after it, no key tried before it matches.
proof fn lemma_earlier_keys_miss(s: Seq<char>, pos: int, j: int, i: int)
    requires
        0 <= i < j < 18,
        0 <= pos,
        matches_at_ic(s, pos, key_spec(j)),
        pos + key_spec(j).len() < s.len(),
        s[pos + key_spec(j).len()] == '=',
    ensures
        !matches_at_ic(s, pos, key_spec(i)),
{
    reveal_strlit("token");
    reveal_strlit("access_token");
    reveal_strlit("refresh_token");
    reveal_strlit("id_token");
    reveal_strlit("api_key");
    reveal_strlit("apikey");
    reveal_strlit("secret");
    reveal_strlit("client_secret");
    reveal_strlit("password");
    reveal_strlit("passwd");
    reveal_strlit("pwd");
    reveal_strlit("pin");
    reveal_strlit("cookie");
    reveal_strlit("authorization");
    reveal_strlit("auth");
    reveal_strlit("session_key");
    reveal_strlit("private_key");
    reveal_strlit("credential");
    lemma_match_head(s, pos, key_spec(j));
    if matches_at_ic(s, pos, key_spec(i)) {
        lemma_match_head(s, pos, key_spec(i));
        assert(false);
    }
}

proof fn lemma_key_value_from_skips(s: Seq<char>, pos: int, k: int, j: int)
    requires
        0 <= k <= j < 18,
        forall|i: int| k <= i < j ==> !matches_at_ic(s, pos, #[trigger] key_spec(i)),
    ensures
        key_value_from(s, pos, k) == key_value_from(s, pos, j),
    decreases j - k,
{
    if k < j {
        lemma_key_value_from_skips(s, pos, k + 1, j);
    }
}

/// A sensitive key (any case) at the start of a word, followed directly by `=`
/// and a plain value, has its value masked from the character after the `=`:
/// the text up to and including the `=` is kept, then `***`, and the
/// redaction goes on where the value ends.
pub proof fn lemma_key_assignment_is_masked(s: Seq<char>, pos: int, j: int)
    requires
        0 <= j < 18,
        0 <= pos,
        matches_at_ic(s, pos, key_spec(j)),
        pos + key_spec(j).len() + 1 < s.len(),
        s[pos + key_spec(j).len()] == '=',
        !(pos > 0 && (('0' <= s[pos - 1] && s[pos - 1] <= '9') || ('a' <= s[pos - 1] && s[pos - 1] <= 'z') || ('A'
            <= s[pos - 1] && s[pos - 1] <= 'Z') || s[pos - 1] == '_')),
        ({
            let c = s[pos + key_spec(j).len() + 1];
            c != ' ' && c != '\t' && c != '"' && c != '\''
        }),
        !matches_at_ic(s, pos + key_spec(j).len() + 1, seq!['b', 'e', 'a', 'r', 'e', 'r', ' ']),
        !matches_at_ic(s, pos + key_spec(j).len() + 1, seq!['b', 'a', 's', 'i', 'c', ' ']),
    ensures
        key_value_at(s, pos) == Some(pos + key_spec(j).len() + 1),
        redact_from(s, pos) == s.subrange(pos, pos + key_spec(j).len() + 1) + seq!['*', '*', '*'] + redact_from(
            s,
            value_end(s, pos + key_spec(j).len() + 1),
        ),
{
    let len = key_spec(j).len();
    assert forall|i: int| 0 <= i < j implies !matches_at_ic(s, pos, #[trigger] key_spec(i)) by {
        lemma_earlier_keys_miss(s, pos, j, i);
    }
    lemma_key_value_from_skips(s, pos, 0, j);
    assert(skip_blank(s, pos + len) == pos + len);
    assert(skip_blank_quote(s, pos + len + 1) == pos + len + 1);
    assert(bearer() == seq!['b', 'e', 'a', 'r', 'e', 'r', ' ']);
    assert(basic() == seq!['b', 'a', 's', 'i', 'c', ' ']);
    assert(key_value_from(s, pos, j) == Some(pos + len + 1));
    reveal_strlit("token");
    reveal_strlit("access_token");
    reveal_strlit("refresh_token");
    reveal_strlit("id_token");
    reveal_strlit("api_key");
    reveal_strlit("apikey");
    reveal_strlit("secret");
    reveal_strlit("client_secret");
    reveal_strlit("password");
    reveal_strlit("passwd");
    reveal_strlit("pwd");
    reveal_strlit("pin");
    reveal_strlit("cookie");
    reveal_strlit("authorization");
    reveal_strlit("auth");
    reveal_strlit("session_key");
    reveal_strlit("private_key");
    reveal_strlit("credential");
    lemma_match_head(s, pos, key_spec(j));
    if matches_at_ic(s, pos, bearer()) {
        lemma_match_head(s, pos, bearer());
    }
    if matches_at_ic(s, pos, basic()) {
        lemma_match_head(s, pos, basic());
    }
    assert(scheme_at(s, pos) is None);
}

/// Length of an authentication scheme name starting at `i`.
pub open spec fn scheme_at(s: Seq<char>, i: int) -> Option<int> {
    if matches_at_ic(s, i, bearer()) {
        Some(7)
    } else if matches_at_ic(s, i, basic()) {
        Some(6)
    } else {
        None
    }
}

/// A key matched at `pos` has its value start after `pos`, within the text.
pub proof fn lemma_key_value_from_bounds(s: Seq<char>, pos: int, k: int)
    requires
        0 <= pos < s.len(),
    ensures
        key_value_from(s, pos, k) matches Some(v) ==> pos < v <= s.len(),
    decreases 18 - k,
{
    if k < 18 {
        let key = key_spec(k);
        if matches_at_ic(s, pos, key) {
            lemma_skip_blank_bounds(s, pos + key.len());
            let i1 = skip_blank(s, pos + key.len());
            if i1 < s.len() && (s[i1] == '"' || s[i1] == '\'') {
                lemma_skip_blank_bounds(s, i1 + 1);
            }
            let i2 = if i1 < s.len() && (s[i1] == '"' || s[i1] == '\'') {
                skip_blank(s, i1 + 1)
            } else {
                i1
            };
            if i2 < s.len() {
                lemma_skip_blank_quote_bounds(s, i2 + 1);
            }
        }
        lemma_key_value_from_bounds(s, pos, k + 1);
    }
}

/// The redacted rendering of `s` from index `i` on.
pub open spec fn redact_from(s: Seq<char>, i: int) -> Seq<char>
    decreases s.len() - i,
{
    if i < 0 || i >= s.len() {
        Seq::empty()
    } else {
        match scheme_at(s, i) {
            Some(l) => {
                proof {
                    lemma_value_end_bounds(s, i + l);
                }
                s.subrange(i, i + l) + mask() + redact_from(s, value_end(s, i + l))
            },
            None => match key_value_at(s, i) {
                Some(v) => {
                    proof {
                        lemma_key_value_from_bounds(s, i, 0);
                        lemma_value_end_bounds(s, v);
                    }
                    s.subrange(i, v) + mask() + redact_from(s, value_end(s, v))
                },
                None => seq![s[i]] + redact_from(s, i + 1),
            },
        }
    }
}

pub open spec fn contains_ic(s: Seq<char>, p: Seq<char>) -> bool {
    exists|i: int| matches_at_ic(s, i, p)
}

/// Whether a text can hold anything to redact (a key name or a scheme, anywhere).
pub open spec fn may_hold_secret(s: Seq<char>) -> bool {
    ||| exists|k: int| 0 <= k < 18 && contains_ic(s, #[trigger] key_spec(k))
    ||| contains_ic(s, bearer())
    ||| contains_ic(s, basic())
}

/// The redacted text.
pub open spec fn redact_spec(s: Seq<char>) -> Seq<char> {
    if may_hold_secret(s) {
        redact_from(s, 0)
    } else {
        s
    }
}

fn contains_chars_ic(s: &[char], p: &[char]) -> (r: bool)
    ensures
        r == contains_ic(s@, p@),
{
    let mut i: usize = 0;
    while i <= s.len()
        invariant
            i <= s.len(),
            forall|k: int| 0 <= k < i ==> !matches_at_ic(s@, k, p@),
        ensures
            forall|k: int| 0 <= k <= s.len() ==> !matches_at_ic(s@, k, p@),
        decreases s.len() + 1 - i,
    {
        if match_at_ic(s, i, p) {
            return true;
        }
        if i == s.len() {
            break;
        }
        i = i + 1;
    }
    false
}

fn bearer_chars() -> (r: Vec<char>)
    ensures
        r@ == bearer(),
{
    vec!['b', 'e', 'a', 'r', 'e', 'r', ' ']
}

fn basic_chars() -> (r: Vec<char>)
    ensures
        r@ == basic(),
{
    vec!['b', 'a', 's', 'i', 'c', ' ']
}

fn find_value_end(s: &[char], k: usize) -> (r: usize)
    requires
        k <= s.len(),
    ensures
        r == value_end(s@, k as int),
{
    let mut j = k;
    while j < s.len() && !is_value_terminator(s[j])
        invariant
            k <= j <= s.len(),
            value_end(s@, j as int) == value_end(s@, k as int),
        decreases s.len() - j,
    {
        j = j + 1;
    }
    j
}

fn skip_ascii_ws(s: &[char], k: usize) -> (r: usize)
    requires
        k <= s.len(),
    ensures
        r == skip_blank(s@, k as int),
        k <= r <= s.len(),
{
    let mut j = k;
    while j < s.len() && (s[j] == ' ' || s[j] == '\t')
        invariant
            k <= j <= s.len(),
            skip_blank(s@, j as int) == skip_blank(s@, k as int),
        decreases s.len() - j,
    {
        j = j + 1;
    }
    j
}

fn skip_blank_and_quotes(s: &[char], k: usize) -> (r: usize)
    requires
        k <= s.len(),
    ensures
        r == skip_blank_quote(s@, k as int),
        k <= r <= s.len(),
{
    let mut j = k;
    while j < s.len() && (s[j] == ' ' || s[j] == '\t' || s[j] == '"' || s[j] == '\'')
        invariant
            k <= j <= s.len(),
            skip_blank_quote(s@, j as int) == skip_blank_quote(s@, k as int),
        decreases s.len() - j,
    {
        j = j + 1;
    }
    j
}

fn scheme_after(s: &[char], k: usize) -> (r: usize)
    requires
        k <= s.len(),
    ensures
        r == after_scheme(s@, k as int),
{
    let b = bearer_chars();
    let c = basic_chars();
    if match_at_ic(s, k, b.as_slice()) {
        k + 7
    } else if match_at_ic(s, k, c.as_slice()) {
        k + 6
    } else {
        k
    }
}

fn is_word(c: char) -> (r: bool)
    ensures
        r == is_word_char(c),
{
    ('0' <= c && c <= '9') || ('a' <= c && c <= 'z') || ('A' <= c && c <= 'Z') || c == '_'
}

/// If a sensitive key with its separator starts at `pos`, the index where its value starts.
///
/// Everything before that index (key, separator, quotes and an authentication
/// scheme name) is kept; the value that follows is masked.
pub fn match_sensitive_key(s: &[char], pos: usize) -> (r: Option<usize>)
    requires
        pos < s.len(),
    ensures
        r matches Some(v) ==> key_value_at(s@, pos as int) == Some(v as int),
        r is None ==> key_value_at(s@, pos as int) is None,
{
    if pos > 0 && is_word(s[pos - 1]) {
        return None;
    }
    let mut k: usize = 0;
    while k < SENSITIVE_KEY_COUNT
        invariant
            pos < s.len(),
            !(pos > 0 && is_word_char(s@[pos - 1])),
            k <= 18,
            key_value_from(s@, pos as int, k as int) == key_value_from(s@, pos as int, 0),
        decreases 18 - k,
    {
        let key = chars_of(sensitive_key(k));
        if match_at_ic(s, pos, key.as_slice()) {
            let mut i = skip_ascii_ws(s, pos + key.len());
            if i < s.len() && (s[i] == '"' || s[i] == '\'') {
                i = skip_ascii_ws(s, i + 1);
            }
            if i >= s.len() {
                return None;
            }
            let sep = s[i];
            if sep == '=' || sep == ':' {
                let j = skip_blank_and_quotes(s, i + 1);
                let v = scheme_after(s, j);
                return Some(v);
            }
        }
        k = k + 1;
    }
    None
}

/// Redacts credentials from a log message.
///
/// The text is returned unchanged (and borrowed) when no key name and no
/// authentication scheme occurs in it at all.
pub fn redact_secrets(input: &str) -> (r: Cow<'_, str>)
    ensures
        r@ == redact_spec(input@),
        (r matches Cow::Borrowed(_)) <==> !may_hold_secret(input@),
{
    let s = chars_of(input);
    let b = bearer_chars();
    let c = basic_chars();
    let mut needs = contains_chars_ic(s.as_slice(), b.as_slice()) || contains_chars_ic(
        s.as_slice(),
        c.as_slice(),
    );
    let mut k: usize = 0;
    while k < SENSITIVE_KEY_COUNT && !needs
        invariant
            s@ == input@,
            k <= 18,
            needs == (contains_ic(s@, bearer()) || contains_ic(s@, basic()) || exists|j: int|
                0 <= j < k && contains_ic(s@, #[trigger] key_spec(j))),
        decreases 18 - k,
    {
        let key = chars_of(sensitive_key(k));
        if contains_chars_ic(s.as_slice(), key.as_slice()) {
            needs = true;
        }
        k = k + 1;
    }
    if !needs {
        assert(!may_hold_secret(input@));
        return Cow::Borrowed(input);
    }
    let mut out: Vec<char> = Vec::new();
    let mut i: usize = 0;
    assert(bearer().len() == 7 && basic().len() == 6);
    while i < s.len()
        invariant
            i <= s.len(),
            b@ == bearer(),
            c@ == basic(),
            bearer().len() == 7,
            basic().len() == 6,
            out@ + redact_from(s@, i as int) == redact_from(s@, 0),
        decreases s.len() - i,
    {
        let ghost before = out@;
        let is_b = match_at_ic(s.as_slice(), i, b.as_slice());
        let is_c = match_at_ic(s.as_slice(), i, c.as_slice());
        if is_b || is_c {
            let l: usize = if is_b {
                7
            } else {
                6
            };
            assert(scheme_at(s@, i as int) == Some(l as int));
            push_all(&mut out, slice_to_vec(s.as_slice(), i, i + l).as_slice());
            out.push('*');
            out.push('*');
            out.push('*');
            let vend = find_value_end(s.as_slice(), i + l);
            proof {
                lemma_value_end_bounds(s@, i + l);
                assert(out@ =~= before + s@.subrange(i as int, i + l) + mask());
            }
            i = vend;
        } else {
            match match_sensitive_key(s.as_slice(), i) {
                Some(v) => {
                    proof {
                        lemma_key_value_from_bounds(s@, i as int, 0);
                    }
                    push_all(&mut out, slice_to_vec(s.as_slice(), i, v).as_slice());
                    out.push('*');
                    out.push('*');
                    out.push('*');
                    let vend = find_value_end(s.as_slice(), v);
                    proof {
                        lemma_value_end_bounds(s@, v as int);
                        assert(out@ =~= before + s@.subrange(i as int, v as int) + mask());
                    }
                    i = vend;
                },
                None => {
                    out.push(s[i]);
                    proof {
                        assert(out@ =~= before + seq![s@[i as int]]);
                    }
                    i = i + 1;
                },
            }
        }
    }
    assert(out@ =~= redact_from(s@, 0));
    Cow::Owned(string_from_chars(out.as_slice()))
}

} // verus!
