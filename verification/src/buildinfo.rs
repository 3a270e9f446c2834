//! The Win32 version resource of the two released programs: the numeric
//! version, the `.rc` source, and the choice of the SDK's `rc.exe` among
//! version directories.
use vstd::prelude::*;

use crate::text::{
    chars_of, dec, parse_uint, parse_uint_chars, push_all, push_str, push_u64, replace_all,
    replace_chars, seqs_view, slice_to_vec, split_chars, split_on, string_from_chars, trim,
    trim_bounds, lemma_split_on_len,
};

verus! {

/// The resource id of the program icon (`Icon::from_resource(1, ..)`).
pub const ICON_RESOURCE_ID: u32 = 1;

/// The company named in the resource.
pub const COMPANY_NAME: &'static str = "KristoffersonLee";

/// The copyright line of the resource.
pub const COPYRIGHT: &'static str = "Copyright (C) 2026 KristoffersonLee";

/// What one program's resource block says.
#[derive(Debug, Clone)]
pub struct Spec {
    /// The root of the crate being built.
    pub manifest_dir: String,
    /// Where the `.rc` and `.res` files are generated.
    pub out_dir: String,
    /// The absolute path of the `.ico` file.
    pub icon_path: String,
    /// The full version (`5.0.0`; a pre-release or build suffix stays out of
    /// the numeric fields).
    pub version: String,
    pub product_name: String,
    pub file_description: String,
    pub company_name: String,
    pub copyright: String,
    /// `OriginalFilename` / `InternalName`.
    pub original_filename: String,
    /// The prefix of the generated file names.
    pub base_name: String,
    /// The label that tells the two programs' resources apart.
    pub generated_label: String,
    /// Let a missing resource pass with a warning.
    pub permit_missing: bool,
}

/// Index of the first `a` or `b` at or after `i` (the length when there is none).
pub open spec fn stop_index(s: Seq<char>, i: int, a: char, b: char) -> int
    decreases s.len() - i,
{
    if i < 0 || i >= s.len() {
        s.len() as int
    } else if s[i] == a || s[i] == b {
        i
    } else {
        stop_index(s, i + 1, a, b)
    }
}

proof fn lemma_stop_index(s: Seq<char>, i: int, a: char, b: char)
    requires
        0 <= i <= s.len(),
    ensures
        i <= stop_index(s, i, a, b) <= s.len(),
    decreases s.len() - i,
{
    if i < s.len() && s[i] != a && s[i] != b {
        lemma_stop_index(s, i + 1, a, b);
    }
}

/// The version without its pre-release (`-…`) or build (`+…`) suffix, trimmed.
pub open spec fn version_core(v: Seq<char>) -> Seq<char> {
    trim(v.subrange(0, stop_index(v, 0, '-', '+')))
}

/// A missing component counts as zero (`5` is `5.0.0`).
pub open spec fn component(parts: Seq<Seq<char>>, i: int) -> Option<nat> {
    if i < parts.len() {
        parse_uint(trim(parts[i]), u32::MAX as nat)
    } else {
        Some(0)
    }
}

/// The four numeric fields of a version: at most three dot-separated numbers
/// in the core, the fourth field always zero.
pub open spec fn numeric_version_spec(v: Seq<char>) -> Option<(u32, u32, u32, u32)> {
    let parts = split_on(version_core(v), '.');
    if parts.len() > 3 {
        None
    } else {
        match (component(parts, 0), component(parts, 1), component(parts, 2)) {
            (Some(a), Some(b), Some(c)) => Some((a as u32, b as u32, c as u32, 0u32)),
            _ => None,
        }
    }
}

fn component_of(parts: &Vec<Vec<char>>, i: usize) -> (r: Option<u64>)
    ensures
        match component(seqs_view(parts@), i as int) {
            Some(n) => r == Some(n as u64),
            None => r is None,
        },
{
    if i < parts.len() {
        assert(seqs_view(parts@)[i as int] == parts@[i as int]@);
        let p = &parts[i];
        let (a, b) = trim_bounds(p.as_slice(), 0, p.len());
        proof {
            assert(p@.subrange(0, p@.len() as int) =~= p@);
        }
        let t = slice_to_vec(p.as_slice(), a, b);
        parse_uint_chars(t.as_slice(), 0xFFFF_FFFF)
    } else {
        Some(0)
    }
}

/// `5.0.0` and `5.0.0-alpha.1` give `(5, 0, 0, 0)`; a missing minor or patch
/// number is zero; a fourth number or a part that is no number gives `None`.
pub fn numeric_version(version: &str) -> (r: Option<(u32, u32, u32, u32)>)
    ensures
        r == numeric_version_spec(version@),
{
    let v = chars_of(version);
    let mut k: usize = 0;
    while k < v.len() && v[k] != '-' && v[k] != '+'
        invariant
            k <= v.len(),
            stop_index(v@, 0, '-', '+') == stop_index(v@, k as int, '-', '+'),
        decreases v.len() - k,
    {
        k = k + 1;
    }
    let (a, b) = trim_bounds(v.as_slice(), 0, k);
    let core = slice_to_vec(v.as_slice(), a, b);
    assert(core@ == version_core(version@));
    let parts = split_chars(core.as_slice(), '.');
    if parts.len() > 3 {
        return None;
    }
    let major = component_of(&parts, 0);
    let minor = component_of(&parts, 1);
    let patch = component_of(&parts, 2);
    match (major, minor, patch) {
        (Some(x), Some(y), Some(z)) => Some((x as u32, y as u32, z as u32, 0)),
        _ => None,
    }
}

/// The numbers of a dotted directory name such as `10.0.26100.0`; `None` for
/// an empty name or one with a part that is no number (`x64`, `arm64`).
pub open spec fn version_parts(s: Seq<char>) -> Option<Seq<u32>> {
    let parts = split_on(s, '.');
    if s.len() == 0 || exists|i: int|
        0 <= i < parts.len() && parse_uint(#[trigger] parts[i], u32::MAX as nat) is None {
        None
    } else {
        Some(Seq::new(parts.len(), |i: int| parse_uint(parts[i], u32::MAX as nat)->0 as u32))
    }
}

/// Reads a dotted version directory name.
pub fn parse_version(s: &str) -> (r: Option<Vec<u32>>)
    ensures
        match r {
            Some(v) => version_parts(s@) == Some(v@),
            None => version_parts(s@) is None,
        },
{
    let v = chars_of(s);
    if v.len() == 0 {
        return None;
    }
    let parts = split_chars(v.as_slice(), '.');
    let ghost ps = split_on(s@, '.');
    let mut out: Vec<u32> = Vec::new();
    let mut i: usize = 0;
    while i < parts.len()
        invariant
            i <= parts.len(),
            seqs_view(parts@) == ps,
            ps == split_on(s@, '.'),
            out@.len() == i,
            forall|j: int| 0 <= j < i ==> parse_uint(#[trigger] ps[j], u32::MAX as nat) is Some,
            forall|j: int|
                0 <= j < i ==> out@[j] as nat == parse_uint(#[trigger] ps[j], u32::MAX as nat)->0,
        decreases parts.len() - i,
    {
        assert(ps[i as int] == parts@[i as int]@);
        match parse_uint_chars(parts[i].as_slice(), 0xFFFF_FFFF) {
            Some(n) => {
                out.push(n as u32);
            },
            None => {
                return None;
            },
        }
        i = i + 1;
    }
    assert(out@ =~= Seq::new(ps.len(), |k: int| parse_uint(ps[k], u32::MAX as nat)->0 as u32));
    Some(out)
}

/// The SDK's directory name for the architecture the program is built for:
/// `arm64` for `aarch64`, `x64` otherwise (the project builds for these two).
pub fn host_arch(target_arch: &str) -> (r: &'static str)
    ensures
        r@ == if target_arch@ == "aarch64"@ {
            "arm64"@
        } else {
            "x64"@
        },
{
    let v = chars_of(target_arch);
    if crate::text::chars_eq_str(v.as_slice(), "aarch64") {
        "arm64"
    } else {
        "x64"
    }
}

/// `a` orders before `b` (lexicographic, as `Vec<u32>` compares).
pub open spec fn lex_lt(a: Seq<u32>, b: Seq<u32>) -> bool
    decreases a.len(),
{
    if a.len() == 0 {
        b.len() > 0
    } else if b.len() == 0 {
        false
    } else if a[0] < b[0] {
        true
    } else if a[0] > b[0] {
        false
    } else {
        lex_lt(a.drop_first(), b.drop_first())
    }
}

/// No version is newer than itself.
pub proof fn lemma_lex_irreflexive(a: Seq<u32>)
    ensures
        !lex_lt(a, a),
    decreases a.len(),
{
    if a.len() > 0 {
        lemma_lex_irreflexive(a.drop_first());
    }
}

/// The version order is transitive.
pub proof fn lemma_lex_transitive(a: Seq<u32>, b: Seq<u32>, c: Seq<u32>)
    requires
        lex_lt(a, b),
        lex_lt(b, c),
    ensures
        lex_lt(a, c),
    decreases a.len(),
{
    if a.len() > 0 && b.len() > 0 && c.len() > 0 && a[0] == b[0] && b[0] == c[0] {
        lemma_lex_transitive(a.drop_first(), b.drop_first(), c.drop_first());
    }
}

/// Any two versions are equal or one is newer.
pub proof fn lemma_lex_total(a: Seq<u32>, b: Seq<u32>)
    ensures
        a == b || lex_lt(a, b) || lex_lt(b, a),
    decreases a.len(),
{
    if a.len() == 0 && b.len() == 0 {
        assert(a =~= b);
    } else if a.len() > 0 && b.len() > 0 && a[0] == b[0] {
        lemma_lex_total(a.drop_first(), b.drop_first());
        if a.drop_first() == b.drop_first() {
            assert(a =~= b) by {
                assert forall|i: int| 0 <= i < a.len() implies a[i] == b[i] by {
                    if i > 0 {
                        assert(a[i] == a.drop_first()[i - 1]);
                        assert(b[i] == b.drop_first()[i - 1]);
                    }
                }
            }
        }
    }
}

fn lex_less(a: &Vec<u32>, b: &Vec<u32>) -> (r: bool)
    ensures
        r == lex_lt(a@, b@),
{
    let mut i: usize = 0;
    assert(a@.subrange(0, a@.len() as int) =~= a@);
    assert(b@.subrange(0, b@.len() as int) =~= b@);
    while i < a.len() && i < b.len()
        invariant
            i <= a.len(),
            i <= b.len(),
            lex_lt(a@, b@) == lex_lt(a@.subrange(i as int, a@.len() as int), b@.subrange(i as int, b@.len() as int)),
        decreases a.len() - i,
    {
        let ghost sa = a@.subrange(i as int, a@.len() as int);
        let ghost sb = b@.subrange(i as int, b@.len() as int);
        assert(sa[0] == a@[i as int]);
        assert(sb[0] == b@[i as int]);
        if a[i] < b[i] {
            return true;
        }
        if a[i] > b[i] {
            return false;
        }
        assert(sa.drop_first() =~= a@.subrange(i + 1, a@.len() as int));
        assert(sb.drop_first() =~= b@.subrange(i + 1, b@.len() as int));
        i = i + 1;
    }
    i < b.len()
}

/// Directory `j` is a candidate: its name is a version and it holds `rc.exe`.
pub open spec fn sdk_candidate(names: Seq<Seq<char>>, has_rc: Seq<bool>, j: int) -> bool {
    0 <= j < names.len() && j < has_rc.len() && has_rc[j] && version_parts(names[j]) is Some
}

pub open spec fn sdk_version(names: Seq<Seq<char>>, j: int) -> Seq<u32> {
    version_parts(names[j])->0
}

/// Among the version directories of an SDK `bin` directory (`names`, and
/// whether each holds `rc.exe` for the host architecture), the one with the
/// highest version; the first met wins a tie.
pub fn newest_sdk_dir(names: &Vec<String>, has_rc: &Vec<bool>) -> (r: Option<usize>)
    requires
        names.len() == has_rc.len(),
    ensures
        ({
            let ns = crate::text::strings_view(names@);
            match r {
                None => forall|j: int| !sdk_candidate(ns, has_rc@, j),
                Some(k) => {
                    &&& sdk_candidate(ns, has_rc@, k as int)
                    &&& forall|j: int|
                        0 <= j < k && sdk_candidate(ns, has_rc@, j) ==> lex_lt(
                            sdk_version(ns, j),
                            sdk_version(ns, k as int),
                        )
                    &&& forall|j: int|
                        k < j < ns.len() && sdk_candidate(ns, has_rc@, j) ==> !lex_lt(
                            sdk_version(ns, k as int),
                            sdk_version(ns, j),
                        )
                },
            }
        }),
{
    let ghost ns = crate::text::strings_view(names@);
    let mut best: Option<(usize, Vec<u32>)> = None;
    let mut i: usize = 0;
    while i < names.len()
        invariant
            i <= names.len(),
            names.len() == has_rc.len(),
            ns == crate::text::strings_view(names@),
            match best {
                None => forall|j: int| 0 <= j < i ==> !sdk_candidate(ns, has_rc@, j),
                Some((k, v)) => {
                    &&& k < i
                    &&& sdk_candidate(ns, has_rc@, k as int)
                    &&& v@ == sdk_version(ns, k as int)
                    &&& forall|j: int|
                        0 <= j < k && sdk_candidate(ns, has_rc@, j) ==> lex_lt(
                            sdk_version(ns, j),
                            sdk_version(ns, k as int),
                        )
                    &&& forall|j: int|
                        k < j < i && sdk_candidate(ns, has_rc@, j) ==> !lex_lt(
                            sdk_version(ns, k as int),
                            sdk_version(ns, j),
                        )
                },
            },
        decreases names.len() - i,
    {
        assert(ns[i as int] == names@[i as int]@);
        let parsed = parse_version(names[i].as_str());
        let cand = has_rc[i] && parsed.is_some();
        if cand {
            let ver = match parsed {
                Some(v) => v,
                None => Vec::new(),
            };
            let better = match &best {
                None => true,
                Some((_, bv)) => lex_less(bv, &ver),
            };
            if better {
                proof {
                    match best {
                        None => {},
                        Some((k, v)) => {
                            let vi = sdk_version(ns, i as int);
                            let vk = sdk_version(ns, k as int);
                            assert forall|j: int|
                                0 <= j < i && sdk_candidate(ns, has_rc@, j) implies lex_lt(
                                sdk_version(ns, j),
                                vi,
                            ) by {
                                let vj = sdk_version(ns, j);
                                if j < k {
                                    lemma_lex_transitive(vj, vk, vi);
                                } else if j > k {
                                    lemma_lex_total(vk, vj);
                                    if lex_lt(vj, vk) {
                                        lemma_lex_transitive(vj, vk, vi);
                                    }
                                }
                            }
                        },
                    }
                }
                best = Some((i, ver));
            }
        }
        i = i + 1;
    }
    match best {
        Some((k, _)) => Some(k),
        None => None,
    }
}

// ---------------------------------------------------------------------------
// The `.rc` source
// ---------------------------------------------------------------------------

pub const RC_HEAD: &'static str = "\n1 VERSIONINFO\nFILEVERSION ";

pub const RC_PRODUCT_VERSION: &'static str = "\nPRODUCTVERSION ";

pub const RC_FIXED: &'static str = "\nFILEFLAGSMASK 0x3fL\n#ifdef _DEBUG\nFILEFLAGS 0x1L\n#else\nFILEFLAGS 0x0L\n#endif\nFILEOS 0x40004L\nFILETYPE 0x1L\nFILESUBTYPE 0x0L\nBEGIN\n    BLOCK \"StringFileInfo\"\n    BEGIN\n        BLOCK \"080404b0\"\n        BEGIN\n            VALUE \"CompanyName\", \"";

pub const RC_DESCRIPTION: &'static str = "\"\n            VALUE \"FileDescription\", \"";

pub const RC_LABEL_OPEN: &'static str = " (";

pub const RC_FILE_VERSION: &'static str = ")\"\n            VALUE \"FileVersion\", \"";

pub const RC_INTERNAL_NAME: &'static str = "\"\n            VALUE \"InternalName\", \"";

pub const RC_COPYRIGHT: &'static str = "\"\n            VALUE \"LegalCopyright\", \"";

pub const RC_ORIGINAL_NAME: &'static str = "\"\n            VALUE \"OriginalFilename\", \"";

pub const RC_PRODUCT_NAME: &'static str = "\"\n            VALUE \"ProductName\", \"";

pub const RC_PRODUCT_VERSION_VALUE: &'static str = "\"\n            VALUE \"ProductVersion\", \"";

pub const RC_TAIL: &'static str = "\"\n        END\n    END\n    BLOCK \"VarFileInfo\"\n    BEGIN\n        VALUE \"Translation\", 0x804, 1200\n    END\nEND\n";

/// `a,b,c,d`.
pub open spec fn four_numbers(n: (u32, u32, u32, u32)) -> Seq<char> {
    dec(n.0 as nat) + ","@ + dec(n.1 as nat) + ","@ + dec(n.2 as nat) + ","@ + dec(n.3 as nat)
}

/// The icon line: the `.rc` language treats `\` as an escape, so each is doubled.
pub open spec fn icon_line(icon_path: Seq<char>) -> Seq<char> {
    dec(ICON_RESOURCE_ID as nat) + " ICON DISCARDABLE \""@ + replace_all(icon_path, "\\"@, "\\\\"@)
        + "\"\n"@
}

/// The whole `.rc` source: the icon line where the icon exists, then the
/// version block.
pub open spec fn rc_text(
    spec: Spec,
    numeric: (u32, u32, u32, u32),
    icon_present: bool,
) -> Seq<char> {
    (if icon_present {
        icon_line(spec.icon_path@)
    } else {
        Seq::empty()
    }) + RC_HEAD@ + four_numbers(numeric) + RC_PRODUCT_VERSION@ + four_numbers(numeric)
        + RC_FIXED@ + spec.company_name@ + RC_DESCRIPTION@ + spec.file_description@
        + RC_LABEL_OPEN@ + spec.generated_label@ + RC_FILE_VERSION@ + spec.version@
        + RC_INTERNAL_NAME@ + spec.original_filename@ + RC_COPYRIGHT@ + spec.copyright@
        + RC_ORIGINAL_NAME@ + spec.original_filename@ + RC_PRODUCT_NAME@ + spec.product_name@
        + RC_PRODUCT_VERSION_VALUE@ + spec.version@ + RC_TAIL@
}

fn push_four(v: &mut Vec<char>, n: (u32, u32, u32, u32))
    ensures
        final(v)@ == old(v)@ + four_numbers(n),
{
    let ghost start = v@;
    push_u64(v, n.0 as u64);
    push_str(v, ",");
    push_u64(v, n.1 as u64);
    push_str(v, ",");
    push_u64(v, n.2 as u64);
    push_str(v, ",");
    push_u64(v, n.3 as u64);
    assert(v@ =~= start + four_numbers(n));
}

/// The `.rc` source of a program's resources; `icon_present` says whether the
/// icon file exists (only then is the icon line written).
pub fn build_rc(spec: &Spec, numeric: (u32, u32, u32, u32), icon_present: bool) -> (r: String)
    ensures
        r@ == rc_text(*spec, numeric, icon_present),
{
    let mut v: Vec<char> = Vec::new();
    if icon_present {
        push_u64(&mut v, ICON_RESOURCE_ID as u64);
        push_str(&mut v, " ICON DISCARDABLE \"");
        let icon = chars_of(spec.icon_path.as_str());
        let escaped = replace_chars(icon.as_slice(), "\\", "\\\\");
        push_all(&mut v, escaped.as_slice());
        push_str(&mut v, "\"\n");
    }
    let ghost head = v@;
    push_str(&mut v, RC_HEAD);
    push_four(&mut v, numeric);
    push_str(&mut v, RC_PRODUCT_VERSION);
    push_four(&mut v, numeric);
    push_str(&mut v, RC_FIXED);
    push_str(&mut v, spec.company_name.as_str());
    push_str(&mut v, RC_DESCRIPTION);
    push_str(&mut v, spec.file_description.as_str());
    push_str(&mut v, RC_LABEL_OPEN);
    push_str(&mut v, spec.generated_label.as_str());
    push_str(&mut v, RC_FILE_VERSION);
    push_str(&mut v, spec.version.as_str());
    push_str(&mut v, RC_INTERNAL_NAME);
    push_str(&mut v, spec.original_filename.as_str());
    push_str(&mut v, RC_COPYRIGHT);
    push_str(&mut v, spec.copyright.as_str());
    push_str(&mut v, RC_ORIGINAL_NAME);
    push_str(&mut v, spec.original_filename.as_str());
    push_str(&mut v, RC_PRODUCT_NAME);
    push_str(&mut v, spec.product_name.as_str());
    push_str(&mut v, RC_PRODUCT_VERSION_VALUE);
    push_str(&mut v, spec.version.as_str());
    push_str(&mut v, RC_TAIL);
    proof {
        if icon_present {
            assert(head =~= icon_line(spec.icon_path@));
        } else {
            assert(head =~= Seq::<char>::empty());
        }
    }
    assert(v@ =~= rc_text(*spec, numeric, icon_present));
    string_from_chars(v.as_slice())
}

} // verus!
