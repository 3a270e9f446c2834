//! JSON through `serde_json`: how a string and a list of strings are written
//! (stated exactly), and what is read from a parsed document (named).
use vstd::prelude::*;

use crate::text::strings_view;

verus! {

// ---------------------------------------------------------------------------
// Writing
// ---------------------------------------------------------------------------

/// The lowercase hexadecimal digit for `d < 16`.
pub open spec fn hex_lower(d: int) -> char {
    if d < 10 {
        ('0' as int + d) as char
    } else {
        ('a' as int + d - 10) as char
    }
}

/// How `serde_json` writes one character inside a string literal: `"` and `\`
/// behind a backslash, the five short control escapes, `\u00xx` (lowercase
/// hex) for the other control characters below U+0020, anything else as is.
pub open spec fn json_escape_char(c: char) -> Seq<char> {
    if c == '"' {
        seq!['\\', '"']
    } else if c == '\\' {
        seq!['\\', '\\']
    } else if c == '\u{8}' {
        seq!['\\', 'b']
    } else if c == '\t' {
        seq!['\\', 't']
    } else if c == '\n' {
        seq!['\\', 'n']
    } else if c == '\u{c}' {
        seq!['\\', 'f']
    } else if c == '\r' {
        seq!['\\', 'r']
    } else if (c as u32) < 0x20 {
        seq!['\\', 'u', '0', '0', hex_lower((c as u32) as int / 16), hex_lower((c as u32) as int % 16)]
    } else {
        seq![c]
    }
}

/// The characters of `s`, escaped one by one.
pub open spec fn json_escape(s: Seq<char>) -> Seq<char>
    decreases s.len(),
{
    if s.len() == 0 {
        Seq::empty()
    } else {
        json_escape(s.drop_last()) + json_escape_char(s.last())
    }
}

/// The JSON string literal of `s` as `serde_json` writes it.
pub open spec fn json_quote(s: Seq<char>) -> Seq<char> {
    seq!['"'] + json_escape(s) + seq!['"']
}

/// The literals of `items`, separated by commas.
pub open spec fn json_items(items: Seq<Seq<char>>) -> Seq<char>
    decreases items.len(),
{
    if items.len() == 0 {
        Seq::empty()
    } else if items.len() == 1 {
        json_quote(items[0])
    } else {
        json_items(items.drop_last()) + seq![','] + json_quote(items.last())
    }
}

/// A list of strings as `serde_json` writes it: `[` the literals `]`, no spaces.
pub open spec fn json_list(items: Seq<Seq<char>>) -> Seq<char> {
    seq!['['] + json_items(items) + seq![']']
}

/// `serde_json::to_string` of a string slice. Writing a string into a byte
/// buffer cannot fail, so the result is always there; it is the string's
/// literal as stated by [`json_quote`].
#[verifier::external_body]
pub(crate) fn json_string(s: &str) -> (r: Option<String>)
    ensures
        r is Some && r->0@ == json_quote(s@),
{
    serde_json::to_string(s).ok()
}

/// `serde_json::to_string` of a list of strings, the error handed back as its
/// message. Serialising strings into a byte buffer cannot fail, so the result
/// is always `Ok`, with the text stated by [`json_list`].
#[verifier::external_body]
pub(crate) fn encode_string_list(list: &[String]) -> (r: Result<String, String>)
    ensures
        match r {
            Ok(t) => t@ == json_list(strings_view(list@)),
            Err(_) => false,
        },
{
    serde_json::to_string(list).map_err(|e| e.to_string())
}

// ---------------------------------------------------------------------------
// Reading
// ---------------------------------------------------------------------------

/// `serde_json::Value`, a parsed JSON document; it is only carried through.
#[verifier::external_type_specification]
#[verifier::external_body]
pub struct ExJsonValue(serde_json::Value);

/// What a member reads as: its text under `Value::as_str` and its truth value
/// under `Value::as_bool` (`None` where it is not a string, not a boolean).
pub type JsonScalar = (Option<Seq<char>>, Option<bool>);

/// What a JSON value holds, as far as this library reads it: its members as
/// `Value::get` finds them (none when the value is not an object), each by
/// what it reads as, and what the value itself reads as.
pub uninterp spec fn json_contents(v: serde_json::Value) -> (Map<Seq<char>, JsonScalar>, JsonScalar);

/// The members of a JSON value, each by what it reads as.
pub open spec fn json_members(v: serde_json::Value) -> Map<Seq<char>, JsonScalar> {
    json_contents(v).0
}


/// What `serde_json::from_str::<Value>` makes of a text: nothing where it is
/// not a JSON document, otherwise the members of the document parsed.
pub uninterp spec fn json_document_members(text: Seq<char>) -> Option<Map<Seq<char>, JsonScalar>>;

/// `serde_json::from_str::<Value>`, its error dropped.
#[verifier::external_body]
pub(crate) fn parse_value(text: &str) -> (r: Option<serde_json::Value>)
    ensures
        match r {
            Some(v) => json_document_members(text@) == Some(json_contents(v).0),
            None => json_document_members(text@) is None,
        },
{
    serde_json::from_str::<serde_json::Value>(text).ok()
}

/// `Value::get` with a string key: the member under `key`, if the value is an
/// object that has one.
#[verifier::external_body]
pub(crate) fn value_get<'a>(v: &'a serde_json::Value, key: &str) -> (r: Option<&'a serde_json::Value>)
    ensures
        match r {
            Some(m) => json_contents(*v).0.contains_key(key@) && json_contents(*v).0[key@] == json_contents(*m).1,
            None => !json_contents(*v).0.contains_key(key@),
        },
{
    v.get(key)
}

/// `Value::as_str`: the text of a string value.
#[verifier::external_body]
pub(crate) fn value_as_str(v: &serde_json::Value) -> (r: Option<&str>)
    ensures
        match r {
            Some(s) => json_contents(*v).1.0 == Some(s@),
            None => json_contents(*v).1.0 is None,
        },
{
    v.as_str()
}

/// `Value::as_bool`: the truth value of a boolean value.
#[verifier::external_body]
pub(crate) fn value_as_bool(v: &serde_json::Value) -> (r: Option<bool>)
    ensures
        r == json_contents(*v).1.1,
{
    v.as_bool()
}

} // verus!
