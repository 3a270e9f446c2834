//! Character-level text primitives shared by the parsers of this crate.
//!
//! Texts are modelled by their `Seq<char>` view; executable code works on
//! `Vec<char>` buffers obtained from [`chars_of`].
use vstd::prelude::*;

verus! {

/// Converts a string slice into its characters (`str::chars` collected).
#[verifier::external_body]
pub(crate) fn chars_of(s: &str) -> (v: Vec<char>)
    ensures
        v@ == s@,
{
    s.chars().collect()
}

/// Builds an owned string from characters (`FromIterator<&char> for String`).
#[verifier::external_body]
pub(crate) fn string_from_chars(v: &[char]) -> (s: String)
    ensures
        s@ == v@,
{
    v.iter().collect()
}

/// Unicode `White_Space` property, as used by `char::is_whitespace` and `str::trim`.
pub open spec fn is_ws(c: char) -> bool {
    let u = c as u32;
    ||| (0x09 <= u && u <= 0x0D)
    ||| u == 0x20
    ||| u == 0x85
    ||| u == 0xA0
    ||| u == 0x1680
    ||| (0x2000 <= u && u <= 0x200A)
    ||| u == 0x2028
    ||| u == 0x2029
    ||| u == 0x202F
    ||| u == 0x205F
    ||| u == 0x3000
}

pub fn is_whitespace(c: char) -> (r: bool)
    ensures
        r == is_ws(c),
{
    let u = c as u32;
    (0x09 <= u && u <= 0x0D) || u == 0x20 || u == 0x85 || u == 0xA0 || u == 0x1680 || (0x2000
        <= u && u <= 0x200A) || u == 0x2028 || u == 0x2029 || u == 0x202F || u == 0x205F || u
        == 0x3000
}

/// ASCII lower-casing of one character (`char::to_ascii_lowercase`).
pub open spec fn lower(c: char) -> char {
    if 'A' <= c && c <= 'Z' {
        ((c as u32) + 32) as char
    } else {
        c
    }
}

/// ASCII upper-casing of one character (`char::to_ascii_uppercase`).
pub open spec fn upper(c: char) -> char {
    if 'a' <= c && c <= 'z' {
        ((c as u32) - 32) as char
    } else {
        c
    }
}

pub fn to_lower(c: char) -> (r: char)
    ensures
        r == lower(c),
{
    if 'A' <= c && c <= 'Z' {
        let b: u8 = c as u8;
        (b + 32) as char
    } else {
        c
    }
}

pub fn to_upper(c: char) -> (r: char)
    ensures
        r == upper(c),
{
    if 'a' <= c && c <= 'z' {
        let b: u8 = c as u8;
        (b - 32) as char
    } else {
        c
    }
}

/// ASCII case-insensitive equality of two characters.
pub open spec fn eq_ic(a: char, b: char) -> bool {
    lower(a) == lower(b)
}

/// ASCII case-insensitive equality of two texts (`str::eq_ignore_ascii_case`).
pub open spec fn seq_eq_ic(a: Seq<char>, b: Seq<char>) -> bool {
    a.len() == b.len() && forall|i: int| 0 <= i < a.len() ==> #[trigger] eq_ic(a[i], b[i])
}

pub fn chars_eq_ic(a: &[char], b: &[char]) -> (r: bool)
    ensures
        r == seq_eq_ic(a@, b@),
{
    if a.len() != b.len() {
        return false;
    }
    let mut i: usize = 0;
    while i < a.len()
        invariant
            a.len() == b.len(),
            i <= a.len(),
            forall|j: int| 0 <= j < i ==> #[trigger] eq_ic(a@[j], b@[j]),
        decreases a.len() - i,
    {
        if to_lower(a[i]) != to_lower(b[i]) {
            assert(!eq_ic(a@[i as int], b@[i as int]));
            return false;
        }
        i = i + 1;
    }
    true
}

/// The text lower-cased character by character.
pub open spec fn lower_seq(s: Seq<char>) -> Seq<char> {
    s.map_values(|c: char| lower(c))
}

pub open spec fn upper_seq(s: Seq<char>) -> Seq<char> {
    s.map_values(|c: char| upper(c))
}

/// `p` occurs in `s` starting at index `i`.
pub open spec fn matches_at(s: Seq<char>, i: int, p: Seq<char>) -> bool {
    &&& 0 <= i
    &&& i + p.len() <= s.len()
    &&& forall|j: int| 0 <= j < p.len() ==> #[trigger] s[i + j] == p[j]
}

/// `p` occurs in `s` at `i`, comparing ASCII letters case-insensitively.
pub open spec fn matches_at_ic(s: Seq<char>, i: int, p: Seq<char>) -> bool {
    &&& 0 <= i
    &&& i + p.len() <= s.len()
    &&& forall|j: int| 0 <= j < p.len() ==> #[trigger] eq_ic(s[i + j], p[j])
}

pub open spec fn starts_with(s: Seq<char>, p: Seq<char>) -> bool {
    matches_at(s, 0, p)
}

pub open spec fn ends_with(s: Seq<char>, p: Seq<char>) -> bool {
    p.len() <= s.len() && matches_at(s, s.len() - p.len(), p)
}

pub open spec fn contains(s: Seq<char>, p: Seq<char>) -> bool {
    exists|i: int| matches_at(s, i, p)
}

/// Index of the first occurrence of `p` in `s` at or after `from` (`str::find`).
pub open spec fn is_first_match_from(s: Seq<char>, from: int, p: Seq<char>, i: int) -> bool {
    &&& from <= i
    &&& matches_at(s, i, p)
    &&& forall|k: int| from <= k < i ==> !matches_at(s, k, p)
}

pub fn match_at(s: &[char], i: usize, p: &[char]) -> (r: bool)
    ensures
        r == matches_at(s@, i as int, p@),
{
    if i > s.len() || p.len() > s.len() - i {
        return false;
    }
    let mut j: usize = 0;
    while j < p.len()
        invariant
            i + p.len() <= s.len(),
            j <= p.len(),
            forall|k: int| 0 <= k < j ==> #[trigger] s@[i + k] == p@[k],
        decreases p.len() - j,
    {
        if s[i + j] != p[j] {
            return false;
        }
        j = j + 1;
    }
    true
}

pub fn match_at_ic(s: &[char], i: usize, p: &[char]) -> (r: bool)
    ensures
        r == matches_at_ic(s@, i as int, p@),
{
    if i > s.len() || p.len() > s.len() - i {
        return false;
    }
    let mut j: usize = 0;
    while j < p.len()
        invariant
            i + p.len() <= s.len(),
            j <= p.len(),
            forall|k: int| 0 <= k < j ==> #[trigger] eq_ic(s@[i + k], p@[k]),
        decreases p.len() - j,
    {
        if to_lower(s[i + j]) != to_lower(p[j]) {
            assert(!eq_ic(s@[i + j], p@[j as int]));
            return false;
        }
        j = j + 1;
    }
    true
}

/// The first occurrence of `p` at or after `from`, if there is one.
pub open spec fn first_match_from(s: Seq<char>, from: int, p: Seq<char>) -> Option<int> {
    if exists|i: int| is_first_match_from(s, from, p, i) {
        Some(choose|i: int| is_first_match_from(s, from, p, i))
    } else {
        None
    }
}

/// At most one index is the first occurrence.
pub proof fn lemma_first_match_unique(s: Seq<char>, from: int, p: Seq<char>, i: int, j: int)
    requires
        is_first_match_from(s, from, p, i),
        is_first_match_from(s, from, p, j),
    ensures
        i == j,
{
    if i < j {
        assert(!matches_at(s, i, p));
    } else if j < i {
        assert(!matches_at(s, j, p));
    }
}

/// An index that is the first occurrence is what the search finds.
pub proof fn lemma_first_match_is(s: Seq<char>, from: int, p: Seq<char>, i: int)
    requires
        is_first_match_from(s, from, p, i),
    ensures
        first_match_from(s, from, p) == Some(i),
{
    let c = choose|k: int| is_first_match_from(s, from, p, k);
    lemma_first_match_unique(s, from, p, i, c);
}

/// With no occurrence at or after `from`, the search finds nothing.
pub proof fn lemma_no_match(s: Seq<char>, from: int, p: Seq<char>)
    requires
        forall|k: int| from <= k ==> !matches_at(s, k, p),
    ensures
        first_match_from(s, from, p) is None,
{
    if exists|i: int| is_first_match_from(s, from, p, i) {
        let c = choose|k: int| is_first_match_from(s, from, p, k);
        assert(matches_at(s, c, p));
    }
}

/// First occurrence of `p` at or after `from`.
pub fn find_from(s: &[char], from: usize, p: &[char]) -> (r: Option<usize>)
    ensures
        match r {
            Some(i) => is_first_match_from(s@, from as int, p@, i as int) && first_match_from(
                s@,
                from as int,
                p@,
            ) == Some(i as int),
            None => (forall|k: int| from <= k ==> !matches_at(s@, k, p@)) && first_match_from(
                s@,
                from as int,
                p@,
            ) is None,
        },
{
    let r = find_from_scan(s, from, p);
    proof {
        match r {
            Some(i) => lemma_first_match_is(s@, from as int, p@, i as int),
            None => lemma_no_match(s@, from as int, p@),
        }
    }
    r
}

fn find_from_scan(s: &[char], from: usize, p: &[char]) -> (r: Option<usize>)
    ensures
        match r {
            Some(i) => is_first_match_from(s@, from as int, p@, i as int),
            None => forall|k: int| from <= k ==> !matches_at(s@, k, p@),
        },
{
    if from > s.len() {
        return None;
    }
    let mut i = from;
    while i <= s.len()
        invariant
            from <= i <= s.len(),
            forall|k: int| from <= k < i ==> !matches_at(s@, k, p@),
        ensures
            forall|k: int| from <= k <= s.len() ==> !matches_at(s@, k, p@),
        decreases s.len() + 1 - i,
    {
        if match_at(s, i, p) {
            return Some(i);
        }
        if i == s.len() {
            break;
        }
        i = i + 1;
    }
    None
}

pub fn find(s: &[char], p: &[char]) -> (r: Option<usize>)
    ensures
        match r {
            Some(i) => is_first_match_from(s@, 0, p@, i as int),
            None => !contains(s@, p@),
        },
{
    find_from(s, 0, p)
}

pub fn contains_chars(s: &[char], p: &[char]) -> (r: bool)
    ensures
        r == contains(s@, p@),
{
    find(s, p).is_some()
}

pub fn contains_str(s: &str, p: &str) -> (r: bool)
    ensures
        r == contains(s@, p@),
{
    let sv = chars_of(s);
    let pv = chars_of(p);
    contains_chars(sv.as_slice(), pv.as_slice())
}

pub fn starts_with_chars(s: &[char], p: &[char]) -> (r: bool)
    ensures
        r == starts_with(s@, p@),
{
    match_at(s, 0, p)
}

pub fn starts_with_str(s: &str, p: &str) -> (r: bool)
    ensures
        r == starts_with(s@, p@),
{
    let sv = chars_of(s);
    let pv = chars_of(p);
    starts_with_chars(sv.as_slice(), pv.as_slice())
}

/// Leading white space removed (`str::trim_start`).
pub open spec fn trim_start(s: Seq<char>) -> Seq<char>
    decreases s.len(),
{
    if s.len() > 0 && is_ws(s[0]) {
        trim_start(s.drop_first())
    } else {
        s
    }
}

/// Trailing white space removed (`str::trim_end`).
pub open spec fn trim_end(s: Seq<char>) -> Seq<char>
    decreases s.len(),
{
    if s.len() > 0 && is_ws(s.last()) {
        trim_end(s.drop_last())
    } else {
        s
    }
}

/// Both ends trimmed (`str::trim`).
pub open spec fn trim(s: Seq<char>) -> Seq<char> {
    trim_end(trim_start(s))
}

/// Leading white space can be dropped before trimming without changing the result.
pub proof fn lemma_trim_start_skip(s: Seq<char>, i: int)
    requires
        0 <= i <= s.len(),
        forall|k: int| 0 <= k < i ==> is_ws(#[trigger] s[k]),
    ensures
        trim_start(s) == trim_start(s.subrange(i, s.len() as int)),
    decreases i,
{
    if i > 0 {
        assert(is_ws(s[0]));
        let t = s.drop_first();
        assert forall|k: int| 0 <= k < i - 1 implies is_ws(#[trigger] t[k]) by {
            assert(t[k] == s[k + 1]);
        }
        lemma_trim_start_skip(t, i - 1);
        assert(t.subrange(i - 1, t.len() as int) =~= s.subrange(i, s.len() as int));
    } else {
        assert(s.subrange(0, s.len() as int) =~= s);
    }
}

/// Trailing white space can be dropped before trimming without changing the result.
pub proof fn lemma_trim_end_skip(s: Seq<char>, e: int)
    requires
        0 <= e <= s.len(),
        forall|k: int| e <= k < s.len() ==> is_ws(#[trigger] s[k]),
    ensures
        trim_end(s) == trim_end(s.subrange(0, e)),
    decreases s.len() - e,
{
    if e < s.len() {
        assert(is_ws(s.last()));
        let t = s.drop_last();
        assert forall|k: int| e <= k < t.len() implies is_ws(#[trigger] t[k]) by {
            assert(t[k] == s[k]);
        }
        lemma_trim_end_skip(t, e);
        assert(t.subrange(0, e) =~= s.subrange(0, e));
    } else {
        assert(s.subrange(0, e) =~= s);
    }
}

/// Range `[start, end)` of `s` that remains after trimming white space at both ends.
pub fn trim_bounds(s: &[char], lo: usize, hi: usize) -> (r: (usize, usize))
    requires
        lo <= hi <= s.len(),
    ensures
        lo <= r.0 <= r.1 <= hi,
        s@.subrange(r.0 as int, r.1 as int) == trim(s@.subrange(lo as int, hi as int)),
{
    let ghost sub = s@.subrange(lo as int, hi as int);
    let mut a = lo;
    while a < hi && is_whitespace(s[a])
        invariant
            lo <= a <= hi <= s.len(),
            sub == s@.subrange(lo as int, hi as int),
            forall|k: int| lo <= k < a ==> is_ws(#[trigger] s@[k]),
        decreases hi - a,
    {
        a = a + 1;
    }
    proof {
        assert forall|k: int| 0 <= k < a - lo implies is_ws(#[trigger] sub[k]) by {
            assert(sub[k] == s@[lo + k]);
        }
        lemma_trim_start_skip(sub, a - lo);
        assert(sub.subrange(a - lo, sub.len() as int) =~= s@.subrange(a as int, hi as int));
        if a < hi {
            assert(!is_ws(s@.subrange(a as int, hi as int)[0]));
        }
    }
    let ghost mid = s@.subrange(a as int, hi as int);
    assert(trim_start(sub) == mid);
    let mut b = hi;
    while b > a && is_whitespace(s[b - 1])
        invariant
            lo <= a <= b <= hi <= s.len(),
            mid == s@.subrange(a as int, hi as int),
            forall|k: int| b <= k < hi ==> is_ws(#[trigger] s@[k]),
        decreases b - a,
    {
        b = b - 1;
    }
    proof {
        assert forall|k: int| b - a <= k < mid.len() implies is_ws(#[trigger] mid[k]) by {
            assert(mid[k] == s@[a + k]);
        }
        lemma_trim_end_skip(mid, b - a);
        assert(mid.subrange(0, b - a) =~= s@.subrange(a as int, b as int));
        if b > a {
            assert(!is_ws(s@.subrange(a as int, b as int).last()));
        }
    }
    (a, b)
}

/// Copies `s[lo..hi)` into a fresh vector.
pub fn slice_to_vec(s: &[char], lo: usize, hi: usize) -> (r: Vec<char>)
    requires
        lo <= hi <= s.len(),
    ensures
        r@ == s@.subrange(lo as int, hi as int),
{
    let mut out: Vec<char> = Vec::new();
    let mut i = lo;
    while i < hi
        invariant
            lo <= i <= hi <= s.len(),
            out@ == s@.subrange(lo as int, i as int),
        decreases hi - i,
    {
        out.push(s[i]);
        proof {
            assert(s@.subrange(lo as int, i + 1) =~= s@.subrange(lo as int, i as int).push(s@[i as int]));
        }
        i = i + 1;
    }
    out
}

/// Appends all characters of `src` to `dst`.
pub fn push_all(dst: &mut Vec<char>, src: &[char])
    ensures
        final(dst)@ == old(dst)@ + src@,
{
    let ghost start = dst@;
    let mut i: usize = 0;
    while i < src.len()
        invariant
            i <= src.len(),
            dst@ == start + src@.subrange(0, i as int),
        decreases src.len() - i,
    {
        dst.push(src[i]);
        proof {
            assert(src@.subrange(0, i + 1) =~= src@.subrange(0, i as int).push(src@[i as int]));
        }
        i = i + 1;
    }
    proof {
        assert(src@.subrange(0, src@.len() as int) =~= src@);
    }
}

/// Appends the characters of a string slice to `dst`.
pub fn push_str(dst: &mut Vec<char>, s: &str)
    ensures
        final(dst)@ == old(dst)@ + s@,
{
    let v = chars_of(s);
    push_all(dst, v.as_slice());
}


/// The decimal digit character for `d < 10`.
pub open spec fn digit_char(d: nat) -> char {
    ((d + 48) as u32) as char
}

/// Decimal rendering of `n` (as by `Display` for unsigned integers).
pub open spec fn dec(n: nat) -> Seq<char>
    decreases n,
{
    if n < 10 {
        seq![digit_char(n)]
    } else {
        dec(n / 10).push(digit_char(n % 10))
    }
}

/// Appends the decimal rendering of `n`.
pub fn push_u64(dst: &mut Vec<char>, n: u64)
    ensures
        final(dst)@ == old(dst)@ + dec(n as nat),
    decreases n,
{
    if n >= 10 {
        push_u64(dst, n / 10);
    }
    let d: u8 = (n % 10) as u8;
    dst.push((d + 48) as char);
    proof {
        if n < 10 {
            assert(dec(n as nat) =~= seq![digit_char(n as nat)]);
        }
    }
}

pub open spec fn is_digit(c: char) -> bool {
    '0' <= c && c <= '9'
}

pub open spec fn digit_val(c: char) -> nat {
    (c as u32 - 48) as nat
}

/// Value of a string of decimal digits.
pub open spec fn digits_val(s: Seq<char>) -> nat
    decreases s.len(),
{
    if s.len() == 0 {
        0
    } else {
        digits_val(s.drop_last()) * 10 + digit_val(s.last())
    }
}

/// The digits after an optional leading `+` (a lone `+` has no digits).
pub open spec fn unsigned_body(s: Seq<char>) -> Seq<char> {
    if s.len() > 1 && s[0] == '+' {
        s.drop_first()
    } else {
        s
    }
}

/// `str::parse` for an unsigned integer type whose maximum is `max`.
pub open spec fn parse_uint(s: Seq<char>, max: nat) -> Option<nat> {
    let b = unsigned_body(s);
    if b.len() == 0 || exists|i: int| 0 <= i < b.len() && !is_digit(#[trigger] b[i]) {
        None
    } else if digits_val(b) > max {
        None
    } else {
        Some(digits_val(b))
    }
}

proof fn lemma_digits_val_prefix(b: Seq<char>, i: int)
    requires
        0 <= i < b.len(),
    ensures
        digits_val(b.subrange(0, i + 1)) == digits_val(b.subrange(0, i)) * 10 + digit_val(b[i]),
{
    let t = b.subrange(0, i + 1);
    assert(t.drop_last() =~= b.subrange(0, i));
}

proof fn lemma_digits_val_mono(b: Seq<char>, i: int, j: int)
    requires
        0 <= i <= j <= b.len(),
    ensures
        digits_val(b.subrange(0, i)) <= digits_val(b.subrange(0, j)),
    decreases j - i,
{
    if i < j {
        lemma_digits_val_mono(b, i, j - 1);
        lemma_digits_val_prefix(b, j - 1);
    }
}

/// Parses an unsigned decimal integer not above `max` (`str::parse::<uN>`).
pub fn parse_uint_chars(s: &[char], max: u64) -> (r: Option<u64>)
    ensures
        match r {
            Some(v) => parse_uint(s@, max as nat) == Some(v as nat),
            None => parse_uint(s@, max as nat) is None,
        },
{
    let start: usize = if s.len() > 1 && s[0] == '+' {
        1
    } else {
        0
    };
    let ghost b = unsigned_body(s@);
    assert(b =~= s@.subrange(start as int, s@.len() as int));
    if start == s.len() {
        return None;
    }
    let mut acc: u64 = 0;
    let mut i = start;
    while i < s.len()
        invariant
            start <= i <= s.len(),
            b == s@.subrange(start as int, s@.len() as int),
            b == unsigned_body(s@),
            start < s.len(),
            acc as nat == digits_val(b.subrange(0, i - start)),
            acc <= max,
            forall|k: int| 0 <= k < i - start ==> is_digit(#[trigger] b[k]),
        decreases s.len() - i,
    {
        let c = s[i];
        assert(b[i - start] == s@[i as int]);
        if !('0' <= c && c <= '9') {
            assert(!is_digit(unsigned_body(s@)[i - start]));
            assert(parse_uint(s@, max as nat) is None);
            return None;
        }
        let d: u64 = (c as u32 - 48) as u64;
        proof {
            lemma_digits_val_prefix(b, i - start);
        }
        if d > max || acc > (max - d) / 10 {
            proof {
                assert(acc * 10 + d > max) by (nonlinear_arith)
                    requires
                        d > max || acc > (max - d) / 10,
                        acc >= 0,
                        d >= 0,
                        max >= 0,
                ;
                lemma_digits_val_mono(b, i - start + 1, b.len() as int);
                assert(b.subrange(0, b.len() as int) =~= b);
                assert(digits_val(unsigned_body(s@)) > max);
            }
            return None;
        }
        acc = acc * 10 + d;
        i = i + 1;
    }
    assert(b.subrange(0, b.len() as int) =~= b);
    Some(acc)
}

pub fn parse_uint_str(s: &str, max: u64) -> (r: Option<u64>)
    ensures
        match r {
            Some(v) => parse_uint(s@, max as nat) == Some(v as nat),
            None => parse_uint(s@, max as nat) is None,
        },
{
    let v = chars_of(s);
    parse_uint_chars(v.as_slice(), max)
}

/// The texts of a list of strings.
pub open spec fn strings_view(v: Seq<String>) -> Seq<Seq<char>> {
    v.map_values(|x: String| x@)
}

/// Whether `v` holds a string equal to `x`.
pub fn contains_string(v: &Vec<String>, x: &String) -> (r: bool)
    ensures
        r == strings_view(v@).contains(x@),
{
    let mut i: usize = 0;
    while i < v.len()
        invariant
            i <= v.len(),
            forall|j: int| 0 <= j < i ==> v@[j]@ != x@,
        decreases v.len() - i,
    {
        if v[i] == *x {
            assert(strings_view(v@)[i as int] == x@);
            return true;
        }
        i = i + 1;
    }
    proof {
        if strings_view(v@).contains(x@) {
            let k = choose|k: int| 0 <= k < strings_view(v@).len() && strings_view(v@)[k] == x@;
            assert(v@[k]@ == x@);
        }
    }
    false
}

/// Parses an unsigned decimal integer after trimming white space at both ends
/// (`str::trim` then `str::parse`).
pub fn parse_uint_trimmed(s: &str, max: u64) -> (r: Option<u64>)
    ensures
        match r {
            Some(v) => parse_uint(trim(s@), max as nat) == Some(v as nat),
            None => parse_uint(trim(s@), max as nat) is None,
        },
{
    let v = chars_of(s);
    let (a, b) = trim_bounds(v.as_slice(), 0, v.len());
    proof {
        assert(v@.subrange(0, v@.len() as int) =~= v@);
    }
    let t = slice_to_vec(v.as_slice(), a, b);
    parse_uint_chars(t.as_slice(), max)
}

/// The characters lower-cased (`str::to_ascii_lowercase`).
pub fn lower_chars(v: &[char]) -> (r: Vec<char>)
    ensures
        r@ == lower_seq(v@),
{
    let mut out: Vec<char> = Vec::new();
    let mut i: usize = 0;
    while i < v.len()
        invariant
            i <= v.len(),
            out@ == lower_seq(v@.subrange(0, i as int)),
        decreases v.len() - i,
    {
        out.push(to_lower(v[i]));
        proof {
            assert(lower_seq(v@.subrange(0, i + 1)) =~= lower_seq(v@.subrange(0, i as int)).push(
                lower(v@[i as int]),
            ));
        }
        i = i + 1;
    }
    proof {
        assert(v@.subrange(0, v@.len() as int) =~= v@);
    }
    out
}

/// Equality of two character sequences.
pub fn chars_eq(a: &[char], b: &[char]) -> (r: bool)
    ensures
        r == (a@ == b@),
{
    if a.len() != b.len() {
        return false;
    }
    let mut i: usize = 0;
    while i < a.len()
        invariant
            a.len() == b.len(),
            i <= a.len(),
            forall|j: int| 0 <= j < i ==> a@[j] == b@[j],
        decreases a.len() - i,
    {
        if a[i] != b[i] {
            return false;
        }
        i = i + 1;
    }
    assert(a@ =~= b@);
    true
}

/// Whether the characters equal those of a string slice.
pub fn chars_eq_str(a: &[char], b: &str) -> (r: bool)
    ensures
        r == (a@ == b@),
{
    let bv = chars_of(b);
    chars_eq(a, bv.as_slice())
}

/// Start of the text `s[lo..hi)` once leading white space is removed.
pub fn trim_start_index(s: &[char], lo: usize, hi: usize) -> (r: usize)
    requires
        lo <= hi <= s.len(),
    ensures
        lo <= r <= hi,
        s@.subrange(r as int, hi as int) == trim_start(s@.subrange(lo as int, hi as int)),
{
    let ghost sub = s@.subrange(lo as int, hi as int);
    let mut a = lo;
    while a < hi && is_whitespace(s[a])
        invariant
            lo <= a <= hi <= s.len(),
            sub == s@.subrange(lo as int, hi as int),
            forall|k: int| lo <= k < a ==> is_ws(#[trigger] s@[k]),
        decreases hi - a,
    {
        a = a + 1;
    }
    proof {
        assert forall|k: int| 0 <= k < a - lo implies is_ws(#[trigger] sub[k]) by {
            assert(sub[k] == s@[lo + k]);
        }
        lemma_trim_start_skip(sub, a - lo);
        let rest = s@.subrange(a as int, hi as int);
        assert(sub.subrange(a - lo, sub.len() as int) =~= rest);
        if a < hi {
            assert(!is_ws(rest[0]));
        }
    }
    a
}

/// The pieces of `s` between occurrences of `sep` (`str::split` with a character).
pub open spec fn split_on(s: Seq<char>, sep: char) -> Seq<Seq<char>>
    decreases s.len(),
{
    if s.len() == 0 {
        seq![Seq::empty()]
    } else {
        let f = split_on(s.drop_last(), sep);
        if s.last() == sep {
            f.push(Seq::empty())
        } else {
            f.update(f.len() - 1, f.last().push(s.last()))
        }
    }
}

/// Splitting always gives at least one piece (the empty text gives one empty piece).
pub proof fn lemma_split_on_len(s: Seq<char>, sep: char)
    ensures
        split_on(s, sep).len() >= 1,
    decreases s.len(),
{
    if s.len() > 0 {
        lemma_split_on_len(s.drop_last(), sep);
    }
}

/// The views of a list of character vectors.
pub open spec fn seqs_view(v: Seq<Vec<char>>) -> Seq<Seq<char>> {
    v.map_values(|x: Vec<char>| x@)
}

/// Splits characters at every `sep`.
pub fn split_chars(s: &[char], sep: char) -> (r: Vec<Vec<char>>)
    ensures
        seqs_view(r@) == split_on(s@, sep),
{
    let mut out: Vec<Vec<char>> = Vec::new();
    let mut cur: Vec<char> = Vec::new();
    let mut i: usize = 0;
    assert(s@.subrange(0, 0) =~= Seq::<char>::empty());
    assert(seqs_view(out@).push(cur@) =~= seq![Seq::<char>::empty()]);
    while i < s.len()
        invariant
            i <= s.len(),
            seqs_view(out@).push(cur@) == split_on(s@.subrange(0, i as int), sep),
        decreases s.len() - i,
    {
        let ghost pre = s@.subrange(0, i as int);
        let ghost nxt = s@.subrange(0, i + 1);
        assert(nxt.drop_last() =~= pre);
        assert(nxt.last() == s@[i as int]);
        proof {
            lemma_split_on_len(pre, sep);
        }
        if s[i] == sep {
            let ghost old_out = out@;
            let ghost old_cur = cur@;
            out.push(cur);
            cur = Vec::new();
            assert(seqs_view(out@) =~= seqs_view(old_out).push(old_cur));
            assert(seqs_view(out@).push(cur@) =~= split_on(pre, sep).push(Seq::empty()));
        } else {
            let ghost old_cur = cur@;
            cur.push(s[i]);
            assert(seqs_view(out@).push(cur@) =~= split_on(pre, sep).update(
                split_on(pre, sep).len() - 1,
                old_cur.push(s@[i as int]),
            ));
        }
        i = i + 1;
    }
    let ghost old_out = out@;
    let ghost last = cur@;
    out.push(cur);
    assert(seqs_view(out@) =~= seqs_view(old_out).push(last));
    assert(s@.subrange(0, s@.len() as int) =~= s@);
    out
}

/// Number of bytes UTF-8 takes for one character.
pub open spec fn utf8_width(c: char) -> nat {
    let u = c as u32;
    if u < 0x80 {
        1
    } else if u < 0x800 {
        2
    } else if u < 0x10000 {
        3
    } else {
        4
    }
}

/// Number of bytes of the UTF-8 encoding of a text (`str::len`).
pub open spec fn utf8_size(s: Seq<char>) -> nat
    decreases s.len(),
{
    if s.len() == 0 {
        0
    } else {
        utf8_size(s.drop_last()) + utf8_width(s.last())
    }
}

/// A longer prefix never takes fewer UTF-8 bytes.
pub proof fn lemma_utf8_size_prefix(s: Seq<char>, i: int, j: int)
    requires
        0 <= i <= j <= s.len(),
    ensures
        utf8_size(s.subrange(0, i)) <= utf8_size(s.subrange(0, j)),
    decreases j - i,
{
    if i < j {
        lemma_utf8_size_prefix(s, i, j - 1);
        assert(s.subrange(0, j).drop_last() =~= s.subrange(0, j - 1));
    }
}

/// Whether the UTF-8 encoding of the characters is longer than `n` bytes.
pub fn utf8_size_exceeds(s: &[char], n: usize) -> (r: bool)
    ensures
        r == (utf8_size(s@) > n),
{
    let mut total: usize = 0;
    let mut i: usize = 0;
    while i < s.len()
        invariant
            i <= s.len(),
            total == utf8_size(s@.subrange(0, i as int)),
            total <= n,
        decreases s.len() - i,
    {
        let u = s[i] as u32;
        let w: usize = if u < 0x80 {
            1
        } else if u < 0x800 {
            2
        } else if u < 0x10000 {
            3
        } else {
            4
        };
        assert(s@.subrange(0, i + 1).drop_last() =~= s@.subrange(0, i as int));
        if w > n - total {
            proof {
                lemma_utf8_size_prefix(s@, i + 1, s@.len() as int);
                assert(s@.subrange(0, s@.len() as int) =~= s@);
            }
            return true;
        }
        total = total + w;
        i = i + 1;
    }
    assert(s@.subrange(0, s@.len() as int) =~= s@);
    false
}

/// What `format!("{:?}", s)` gives for a string: its `Debug` text, quoted and escaped.
pub uninterp spec fn debug_str(s: Seq<char>) -> Seq<char>;

/// `format!("{:?}", s)` for a string slice (`<str as Debug>::fmt`).
#[verifier::external_body]
pub(crate) fn debug_quoted(s: &str) -> (r: String)
    ensures
        r@ == debug_str(s@),
{
    format!("{:?}", s)
}

/// The index of the first `c` at or after `i`, or the length when there is none.
pub open spec fn upto_char(s: Seq<char>, i: int, c: char) -> int
    decreases s.len() - i,
{
    if i < 0 || i >= s.len() {
        s.len() as int
    } else if s[i] == c {
        i
    } else {
        upto_char(s, i + 1, c)
    }
}

/// The scan for `c` from `i` stops between `i` and the end.
pub proof fn lemma_upto_char(s: Seq<char>, i: int, c: char)
    requires
        0 <= i <= s.len(),
    ensures
        i <= upto_char(s, i, c) <= s.len(),
    decreases s.len() - i,
{
    if i < s.len() && s[i] != c {
        lemma_upto_char(s, i + 1, c);
    }
}

/// Index of the first `c` at or after `i` (the length when there is none).
pub fn upto_char_index(s: &[char], i: usize, c: char) -> (r: usize)
    requires
        i <= s.len(),
    ensures
        r as int == upto_char(s@, i as int, c),
        i <= r <= s.len(),
{
    let mut k = i;
    while k < s.len() && s[k] != c
        invariant
            i <= k <= s.len(),
            upto_char(s@, i as int, c) == upto_char(s@, k as int, c),
        decreases s.len() - k,
    {
        k = k + 1;
    }
    k
}

/// The index of the last `c` in `s`.
pub open spec fn last_index_of(s: Seq<char>, c: char) -> Option<int>
    decreases s.len(),
{
    if s.len() == 0 {
        None
    } else if s.last() == c {
        Some(s.len() - 1)
    } else {
        last_index_of(s.drop_last(), c)
    }
}

pub fn last_index(s: &[char], c: char) -> (r: Option<usize>)
    ensures
        match r {
            Some(i) => last_index_of(s@, c) == Some(i as int) && i < s.len(),
            None => last_index_of(s@, c) is None,
        },
{
    let mut k = s.len();
    assert(s@.subrange(0, k as int) =~= s@);
    while k > 0 && s[k - 1] != c
        invariant
            k <= s.len(),
            last_index_of(s@, c) == last_index_of(s@.subrange(0, k as int), c),
        decreases k,
    {
        assert(s@.subrange(0, k as int).drop_last() =~= s@.subrange(0, k - 1));
        k = k - 1;
    }
    if k == 0 {
        None
    } else {
        assert(s@.subrange(0, k as int).last() == s@[k - 1]);
        Some(k - 1)
    }
}

/// All characters are ASCII digits.
pub open spec fn all_digits(s: Seq<char>) -> bool {
    forall|k: int| 0 <= k < s.len() ==> is_digit(#[trigger] s[k])
}

pub fn all_ascii_digits(s: &[char]) -> (r: bool)
    ensures
        r == all_digits(s@),
{
    let mut k: usize = 0;
    while k < s.len()
        invariant
            k <= s.len(),
            forall|j: int| 0 <= j < k ==> is_digit(#[trigger] s@[j]),
        decreases s.len() - k,
    {
        if !(s[k] >= '0' && s[k] <= '9') {
            assert(!is_digit(s@[k as int]));
            return false;
        }
        k = k + 1;
    }
    true
}

/// Lexicographic order of texts by character (the order of `str`, since UTF-8
/// preserves the order of code points).
pub open spec fn text_le(a: Seq<char>, b: Seq<char>) -> bool
    decreases a.len(),
{
    if a.len() == 0 {
        true
    } else if b.len() == 0 {
        false
    } else if (a[0] as u32) < (b[0] as u32) {
        true
    } else if a[0] == b[0] {
        text_le(a.drop_first(), b.drop_first())
    } else {
        false
    }
}

/// The strings are in ascending order.
pub open spec fn texts_sorted(v: Seq<Seq<char>>) -> bool {
    forall|i: int, j: int| 0 <= i < j < v.len() ==> text_le(v[i], v[j])
}

/// `slice::sort` on strings: ascending order, the same strings.
#[verifier::external_body]
pub(crate) fn sort_strings(v: &mut Vec<String>)
    ensures
        texts_sorted(strings_view(final(v)@)),
        strings_view(final(v)@).to_multiset() == strings_view(old(v)@).to_multiset(),
{
    v.sort();
}

/// Concatenation of texts, each followed by nothing (for building lines).
pub open spec fn join_lines(v: Seq<Seq<char>>, sep: Seq<char>) -> Seq<char>
    decreases v.len(),
{
    if v.len() == 0 {
        Seq::empty()
    } else if v.len() == 1 {
        v[0]
    } else {
        join_lines(v.drop_last(), sep) + sep + v.last()
    }
}

/// The search result is exactly the first occurrence, or there is none.
pub proof fn lemma_first_match_some(s: Seq<char>, from: int, p: Seq<char>)
    ensures
        match first_match_from(s, from, p) {
            Some(i) => is_first_match_from(s, from, p, i),
            None => forall|k: int| !is_first_match_from(s, from, p, k),
        },
{
}

/// Every non-overlapping occurrence of `from` replaced by `to`, scanning from
/// the left (`str::replace`), appended to `acc`.
pub open spec fn replace_acc(s: Seq<char>, i: int, from: Seq<char>, to: Seq<char>, acc: Seq<char>) -> Seq<char>
    decreases s.len() - i,
{
    if i < 0 || i >= s.len() {
        acc
    } else if from.len() > 0 && matches_at(s, i, from) {
        replace_acc(s, i + from.len(), from, to, acc + to)
    } else {
        replace_acc(s, i + 1, from, to, acc.push(s[i]))
    }
}

pub open spec fn replace_all(s: Seq<char>, from: Seq<char>, to: Seq<char>) -> Seq<char> {
    replace_acc(s, 0, from, to, Seq::empty())
}

/// `str::replace` on characters.
pub fn replace_chars(s: &[char], from: &str, to: &str) -> (r: Vec<char>)
    ensures
        r@ == replace_all(s@, from@, to@),
{
    let f = chars_of(from);
    let t = chars_of(to);
    let mut out: Vec<char> = Vec::new();
    let mut i: usize = 0;
    while i < s.len()
        invariant
            i <= s.len(),
            f@ == from@,
            t@ == to@,
            replace_acc(s@, i as int, from@, to@, out@) == replace_all(s@, from@, to@),
        decreases s.len() - i,
    {
        if f.len() > 0 && match_at(s, i, f.as_slice()) {
            push_all(&mut out, t.as_slice());
            i = i + f.len();
        } else {
            out.push(s[i]);
            i = i + 1;
        }
    }
    out
}

/// Appends the texts of `items` separated by `sep` (`slice::join`).
pub fn push_joined(out: &mut Vec<char>, items: &[String], sep: &str)
    ensures
        final(out)@ == old(out)@ + join_lines(strings_view(items@), sep@),
{
    let ghost start = out@;
    let mut i: usize = 0;
    assert(strings_view(items@).subrange(0, 0) =~= Seq::<Seq<char>>::empty());
    while i < items.len()
        invariant
            i <= items.len(),
            out@ == start + join_lines(strings_view(items@).subrange(0, i as int), sep@),
        decreases items.len() - i,
    {
        let ghost pre = strings_view(items@).subrange(0, i as int);
        let ghost nxt = strings_view(items@).subrange(0, i + 1);
        assert(nxt.drop_last() =~= pre);
        assert(nxt.last() == items@[i as int]@);
        if i > 0 {
            push_str(out, sep);
        }
        push_str(out, items[i].as_str());
        proof {
            if i == 0 {
                assert(nxt.len() == 1);
                assert(join_lines(pre, sep@) =~= Seq::<char>::empty());
            }
            assert(out@ =~= start + join_lines(nxt, sep@));
        }
        i = i + 1;
    }
    assert(strings_view(items@).subrange(0, items@.len() as int) =~= strings_view(items@));
}

} // verus!
