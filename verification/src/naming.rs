//! Crate identity: name validation, the `use-*` convention, crate/module name
//! conversion, name normalization and the expected repository and docs URLs.

use vstd::prelude::*;
use crate::text::{push_char, string_from_chars, concat_text};

verus! {

/// A character that may appear in a crate name: an ASCII lowercase letter, an
/// ASCII digit, `-` or `_`.
pub open spec fn is_name_char(c: char) -> bool {
    ('a' <= c && c <= 'z') || ('0' <= c && c <= '9') || c == '-' || c == '_'
}

/// A separator that may not open or close a crate name.
pub open spec fn is_edge_separator(c: char) -> bool {
    c == '-' || c == '_'
}

/// A valid crate name: non-empty, made of name characters only, and neither
/// starting nor ending with `-` or `_`.
pub open spec fn valid_crate_name(s: Seq<char>) -> bool {
    &&& s.len() > 0
    &&& !is_edge_separator(s[0])
    &&& !is_edge_separator(s[s.len() - 1])
    &&& forall|i: int| 0 <= i < s.len() ==> is_name_char(#[trigger] s[i])
}

/// The RustUse crate prefix `use-`.
pub open spec fn use_prefix() -> Seq<char> {
    seq!['u', 's', 'e', '-']
}

/// Whether a name starts with `use-`.
pub open spec fn has_use_prefix(s: Seq<char>) -> bool {
    s.len() >= 4 && s.take(4) == use_prefix()
}

/// Replaces every occurrence of `from` by `to`.
pub open spec fn replace_char(s: Seq<char>, from: char, to: char) -> Seq<char> {
    s.map_values(|c: char| if c == from { to } else { c })
}

/// ASCII lowercase mapping of one character; other characters are unchanged.
pub open spec fn ascii_lower(c: char) -> char {
    if 'A' <= c && c <= 'Z' {
        ((c as u32) + 32) as char
    } else {
        c
    }
}

/// How normalization maps one character: spaces and underscores become
/// hyphens, everything else is lowercased the ASCII way.
pub open spec fn normalized_char(c: char) -> char {
    if c == ' ' || c == '_' {
        '-'
    } else {
        ascii_lower(c)
    }
}

/// Maps every character with `normalized_char`, dropping a hyphen that would
/// open the result or follow another hyphen.
pub open spec fn collapse_hyphens(s: Seq<char>) -> Seq<char>
    decreases s.len(),
{
    if s.len() == 0 {
        Seq::empty()
    } else {
        let prev = collapse_hyphens(s.drop_last());
        let m = normalized_char(s.last());
        if m == '-' && (prev.len() == 0 || prev.last() == '-') {
            prev
        } else {
            prev.push(m)
        }
    }
}

/// Removes every hyphen at the end.
pub open spec fn strip_trailing_hyphens(s: Seq<char>) -> Seq<char>
    decreases s.len(),
{
    if s.len() > 0 && s.last() == '-' {
        strip_trailing_hyphens(s.drop_last())
    } else {
        s
    }
}

/// The characters with the Unicode `White_Space` property, which `str::trim`
/// and `char::is_whitespace` treat as whitespace.
pub open spec fn unicode_white_space(c: char) -> bool {
    let u = c as u32;
    ||| (0x09 <= u && u <= 0x0d)
    ||| u == 0x20
    ||| u == 0x85
    ||| u == 0xa0
    ||| u == 0x1680
    ||| (0x2000 <= u && u <= 0x200a)
    ||| u == 0x2028
    ||| u == 0x2029
    ||| u == 0x202f
    ||| u == 0x205f
    ||| u == 0x3000
}

/// Drops the leading whitespace.
pub open spec fn drop_leading_white_space(s: Seq<char>) -> Seq<char>
    decreases s.len(),
{
    if s.len() > 0 && unicode_white_space(s[0]) {
        drop_leading_white_space(s.drop_first())
    } else {
        s
    }
}

/// Drops the trailing whitespace.
pub open spec fn drop_trailing_white_space(s: Seq<char>) -> Seq<char>
    decreases s.len(),
{
    if s.len() > 0 && unicode_white_space(s.last()) {
        drop_trailing_white_space(s.drop_last())
    } else {
        s
    }
}

/// The text without leading and trailing whitespace.
pub open spec fn trimmed(s: Seq<char>) -> Seq<char> {
    drop_trailing_white_space(drop_leading_white_space(s))
}

/// The normalized form of a crate name: trimmed, ASCII-lowercased, spaces and
/// underscores turned into hyphens, runs of hyphens collapsed, and no hyphen
/// at either end.
pub open spec fn normalized_crate_name(s: Seq<char>) -> Seq<char> {
    strip_trailing_hyphens(collapse_hyphens(trimmed(s)))
}

/// `str::trim`: the slice without leading and trailing Unicode whitespace.
#[verifier::external_body]
fn trim_text(s: &str) -> (r: &str)
    ensures
        r@ == trimmed(s@),
{
    s.trim()
}

/// Returns `true` when a value is a valid crate name under RustUse defaults.
pub fn is_valid_crate_name(value: &str) -> (r: bool)
    ensures
        r == valid_crate_name(value@),
{
    let n = value.unicode_len();
    if n == 0 {
        return false;
    }
    let first = value.get_char(0);
    let last = value.get_char(n - 1);
    if first == '-' || first == '_' || last == '-' || last == '_' {
        return false;
    }
    for i in 0..n
        invariant
            n == value@.len(),
            forall|j: int| 0 <= j < i ==> is_name_char(#[trigger] value@[j]),
    {
        let c = value.get_char(i);
        let ok = ('a' <= c && c <= 'z') || ('0' <= c && c <= '9') || c == '-' || c == '_';
        if !ok {
            assert(!is_name_char(value@[i as int]));
            return false;
        }
    }
    true
}

/// Returns `true` when a crate name uses the RustUse `use-*` prefix.
pub fn is_use_prefixed(value: &str) -> (r: bool)
    ensures
        r == has_use_prefix(value@),
{
    let n = value.unicode_len();
    if n < 4 {
        return false;
    }
    let r = value.get_char(0) == 'u' && value.get_char(1) == 's' && value.get_char(2) == 'e'
        && value.get_char(3) == '-';
    proof {
        if r {
            assert(value@.take(4) =~= use_prefix());
        } else {
            assert(value@.take(4)[0] == value@[0]);
            assert(value@.take(4)[1] == value@[1]);
            assert(value@.take(4)[2] == value@[2]);
            assert(value@.take(4)[3] == value@[3]);
        }
    }
    r
}

/// Replaces every `from` character by `to`.
fn replace_chars(value: &str, from: char, to: char) -> (r: String)
    ensures
        r@ == replace_char(value@, from, to),
{
    let n = value.unicode_len();
    let mut out = String::new();
    for i in 0..n
        invariant
            n == value@.len(),
            out@ == replace_char(value@.take(i as int), from, to),
    {
        let c = value.get_char(i);
        push_char(&mut out, if c == from { to } else { c });
        assert(replace_char(value@.take(i + 1), from, to) =~= replace_char(
            value@.take(i as int),
            from,
            to,
        ).push(if c == from { to } else { c }));
    }
    assert(value@.take(n as int) =~= value@);
    out
}

/// Converts a crate name like `use-rust-release` into a Rust module name.
pub fn crate_name_to_module_name(value: &str) -> (r: String)
    ensures
        r@ == replace_char(value@, '-', '_'),
{
    replace_chars(value, '-', '_')
}

/// Converts a Rust module name like `use_rust_release` into a crate name.
pub fn module_name_to_crate_name(value: &str) -> (r: String)
    ensures
        r@ == replace_char(value@, '_', '-'),
{
    replace_chars(value, '_', '-')
}

/// The ASCII lowercase form of one character.
fn lower_ascii_char(c: char) -> (r: char)
    ensures
        r == ascii_lower(c),
{
    if 'A' <= c && c <= 'Z' {
        let code: u32 = c as u32;
        let lower: u8 = (code + 32) as u8;
        lower as char
    } else {
        c
    }
}

/// Normalizes a crate name by trimming, ASCII-lowercasing, replacing spaces or
/// underscores with hyphens, collapsing repeated hyphens, and trimming edges.
pub fn normalize_crate_name(value: &str) -> (r: String)
    ensures
        r@ == normalized_crate_name(value@),
        forall|i: int| 0 <= i < r@.len() ==> #[trigger] r@[i] != '_',
        forall|i: int| 0 <= i < r@.len() - 1 ==> !(#[trigger] r@[i] == '-' && r@[i + 1] == '-'),
        r@.len() > 0 ==> r@[0] != '-' && r@.last() != '-',
        forall|i: int| 0 <= i < r@.len() ==> !('A' <= #[trigger] r@[i] <= 'Z') && r@[i] != ' ',
{
    proof {
        lemma_normalized_shape(value@);
        let n = normalized_crate_name(value@);
        assert forall|i: int| 0 <= i < n.len() implies !('A' <= #[trigger] n[i] <= 'Z') && n[i]
            != ' ' by {
            assert(normalized_char(n[i]) == n[i]);
            if 'A' <= n[i] && n[i] <= 'Z' {
                let u = (n[i] as u32) + 32;
                assert((u as char) as u32 == u);
            }
        }
    }
    let trimmed_value = trim_text(value);
    let n = trimmed_value.unicode_len();
    let mut out: Vec<char> = Vec::new();
    let mut last_was_hyphen = false;
    for i in 0..n
        invariant
            n == trimmed_value@.len(),
            trimmed_value@ == trimmed(value@),
            out@ == collapse_hyphens(trimmed_value@.take(i as int)),
            last_was_hyphen == (out@.len() > 0 && out@.last() == '-'),
    {
        let c = trimmed_value.get_char(i);
        let mapped = if c == ' ' || c == '_' {
            '-'
        } else {
            lower_ascii_char(c)
        };
        proof {
            assert(trimmed_value@.take(i + 1).drop_last() =~= trimmed_value@.take(i as int));
        }
        if mapped == '-' {
            if !(out.len() == 0 || last_was_hyphen) {
                last_was_hyphen = true;
                out.push(mapped);
            }
        } else {
            last_was_hyphen = false;
            out.push(mapped);
        }
    }
    proof {
        assert(trimmed_value@.take(n as int) =~= trimmed_value@);
    }
    while out.len() > 0 && out[out.len() - 1] == '-'
        invariant
            strip_trailing_hyphens(out@) == normalized_crate_name(value@),
        decreases out.len(),
    {
        let ghost before = out@;
        out.pop();
        proof {
            assert(out@ =~= before.drop_last());
        }
    }
    string_from_chars(&out)
}

/// The RustUse GitHub repository URL of a (normalized) repository name.
pub open spec fn repository_url_for(name: Seq<char>) -> Seq<char> {
    "https://github.com/RustUse/"@ + normalized_crate_name(name)
}

/// The docs.rs URL of a (normalized) crate name.
pub open spec fn docs_url_for(name: Seq<char>) -> Seq<char> {
    "https://docs.rs/"@ + normalized_crate_name(name)
}

/// Returns the text of the expected RustUse GitHub repository URL.
pub fn expected_repository_url_text(repo_name: &str) -> (r: String)
    ensures
        r@ == repository_url_for(repo_name@),
{
    let name = normalize_crate_name(repo_name);
    concat_text("https://github.com/RustUse/", name.as_str())
}

/// Returns the text of the expected docs.rs URL.
pub fn expected_docs_url_text(crate_name: &str) -> (r: String)
    ensures
        r@ == docs_url_for(crate_name@),
{
    let name = normalize_crate_name(crate_name);
    concat_text("https://docs.rs/", name.as_str())
}


/// A crate name in the form that normalization produces: valid, without
/// underscores, and without two hyphens in a row.
pub open spec fn canonical_crate_name(s: Seq<char>) -> bool {
    &&& valid_crate_name(s)
    &&& forall|i: int| 0 <= i < s.len() ==> #[trigger] s[i] != '_'
    &&& forall|i: int| 0 <= i < s.len() - 1 ==> !(#[trigger] s[i] == '-' && s[i + 1] == '-')
}

/// The shape that hyphen collapsing always leaves.
pub open spec fn collapsed_shape(s: Seq<char>) -> bool {
    &&& forall|i: int| 0 <= i < s.len() ==> #[trigger] s[i] != '_'
    &&& forall|i: int| 0 <= i < s.len() - 1 ==> !(#[trigger] s[i] == '-' && s[i + 1] == '-')
    &&& (s.len() > 0 ==> s[0] != '-')
}

proof fn lemma_normalized_char_not_underscore(c: char)
    ensures
        normalized_char(c) != '_',
        normalized_char(normalized_char(c)) == normalized_char(c),
{
    if 'A' <= c && c <= 'Z' {
        let u = (c as u32) + 32;
        assert(97 <= u <= 122);
        assert((u as char) as u32 == u);
    }
}

/// Every character of `s` is left as it is by `normalized_char`.
pub open spec fn fixed_by_normalization(s: Seq<char>) -> bool {
    forall|i: int| 0 <= i < s.len() ==> normalized_char(#[trigger] s[i]) == s[i]
}

proof fn lemma_collapse_shape(s: Seq<char>)
    ensures
        collapsed_shape(collapse_hyphens(s)),
        fixed_by_normalization(collapse_hyphens(s)),
    decreases s.len(),
{
    if s.len() > 0 {
        lemma_collapse_shape(s.drop_last());
        lemma_normalized_char_not_underscore(s.last());
        let prev = collapse_hyphens(s.drop_last());
        let m = normalized_char(s.last());
        if !(m == '-' && (prev.len() == 0 || prev.last() == '-')) {
            let r = prev.push(m);
            assert forall|i: int| 0 <= i < r.len() implies #[trigger] r[i] != '_' by {
                if i < prev.len() {
                    assert(r[i] == prev[i]);
                }
            }
            assert forall|i: int| 0 <= i < r.len() implies normalized_char(#[trigger] r[i])
                == r[i] by {
                if i < prev.len() {
                    assert(r[i] == prev[i]);
                }
            }
            assert forall|i: int| 0 <= i < r.len() - 1 implies !(#[trigger] r[i] == '-' && r[i
                + 1] == '-') by {
                if i < prev.len() - 1 {
                    assert(r[i] == prev[i] && r[i + 1] == prev[i + 1]);
                }
            }
        }
    }
}

proof fn lemma_strip_prefix(s: Seq<char>)
    ensures
        strip_trailing_hyphens(s).len() <= s.len(),
        strip_trailing_hyphens(s) == s.take(strip_trailing_hyphens(s).len() as int),
        strip_trailing_hyphens(s).len() > 0 ==> strip_trailing_hyphens(s).last() != '-',
    decreases s.len(),
{
    if s.len() > 0 && s.last() == '-' {
        lemma_strip_prefix(s.drop_last());
        let r = strip_trailing_hyphens(s.drop_last());
        assert(s.drop_last().take(r.len() as int) =~= s.take(r.len() as int));
    } else {
        assert(s.take(s.len() as int) =~= s);
    }
}

/// Every normalized name is free of underscores and doubled hyphens, neither
/// starts nor ends with a hyphen, and is left as it is, character by
/// character, by the normalizing map.
pub proof fn lemma_normalized_shape(v: Seq<char>)
    ensures
        collapsed_shape(normalized_crate_name(v)),
        fixed_by_normalization(normalized_crate_name(v)),
        normalized_crate_name(v).len() > 0 ==> normalized_crate_name(v).last() != '-',
{
    let c = collapse_hyphens(trimmed(v));
    lemma_collapse_shape(trimmed(v));
    lemma_strip_prefix(c);
    let r = strip_trailing_hyphens(c);
    assert forall|i: int| 0 <= i < r.len() implies #[trigger] r[i] != '_' by {
        assert(r[i] == c[i]);
    }
    assert forall|i: int| 0 <= i < r.len() implies normalized_char(#[trigger] r[i]) == r[i] by {
        assert(r[i] == c[i]);
    }
    assert forall|i: int| 0 <= i < r.len() - 1 implies !(#[trigger] r[i] == '-' && r[i + 1]
        == '-') by {
        assert(r[i] == c[i] && r[i + 1] == c[i + 1]);
    }
    if r.len() > 0 {
        assert(r[0] == c[0]);
    }
}

/// A normalized name that is valid is in canonical form.
pub proof fn lemma_valid_normalized_is_canonical(v: Seq<char>)
    requires
        valid_crate_name(normalized_crate_name(v)),
    ensures
        canonical_crate_name(normalized_crate_name(v)),
{
    lemma_normalized_shape(v);
}

proof fn lemma_collapse_identity(t: Seq<char>, k: int)
    requires
        collapsed_shape(t),
        fixed_by_normalization(t),
        0 <= k <= t.len(),
    ensures
        collapse_hyphens(t.take(k)) == t.take(k),
    decreases k,
{
    if k > 0 {
        lemma_collapse_identity(t, k - 1);
        assert(t.take(k).drop_last() =~= t.take(k - 1));
        let c = t[k - 1];
        assert(normalized_char(c) == c);
        if c == '-' {
            assert(k - 1 > 0);
            assert(t[k - 2] != '-') by {
                assert(!(t[k - 2] == '-' && t[k - 1] == '-'));
            }
        }
        assert(t.take(k - 1).push(c) =~= t.take(k));
    }
}

/// Normalization leaves unchanged a name that has the normalized shape and
/// neither starts nor ends with whitespace.
proof fn lemma_settled_is_normalized(t: Seq<char>)
    requires
        collapsed_shape(t),
        fixed_by_normalization(t),
        t.len() > 0 ==> t.last() != '-',
        t.len() > 0 ==> !unicode_white_space(t[0]) && !unicode_white_space(t.last()),
    ensures
        normalized_crate_name(t) == t,
{
    assert(drop_leading_white_space(t) == t);
    assert(drop_trailing_white_space(t) == t);
    lemma_collapse_identity(t, t.len() as int);
    assert(t.take(t.len() as int) =~= t);
    assert(strip_trailing_hyphens(t) == t);
}

/// Normalization leaves a canonical name unchanged.
pub proof fn lemma_canonical_is_normalized(t: Seq<char>)
    requires
        canonical_crate_name(t),
    ensures
        normalized_crate_name(t) == t,
{
    assert(is_name_char(t[0]));
    assert(is_name_char(t[t.len() - 1]));
    assert forall|i: int| 0 <= i < t.len() implies normalized_char(#[trigger] t[i]) == t[i] by {
        assert(is_name_char(t[i]));
    }
    lemma_settled_is_normalized(t);
}

/// Turning a crate name into a module name and back gives the crate name
/// again, for names without underscores.
pub proof fn lemma_module_name_round_trip(s: Seq<char>)
    requires
        forall|i: int| 0 <= i < s.len() ==> #[trigger] s[i] != '_',
    ensures
        replace_char(replace_char(s, '-', '_'), '_', '-') == s,
{
    assert(replace_char(replace_char(s, '-', '_'), '_', '-') =~= s);
}

/// Turning a module name into a crate name and back gives the module name
/// again, for names without hyphens.
pub proof fn lemma_crate_name_round_trip(s: Seq<char>)
    requires
        forall|i: int| 0 <= i < s.len() ==> #[trigger] s[i] != '-',
    ensures
        replace_char(replace_char(s, '_', '-'), '-', '_') == s,
{
    assert(replace_char(replace_char(s, '_', '-'), '-', '_') =~= s);
}

/// Normalizing twice gives the same name as normalizing once, unless the
/// first normalization leaves whitespace at either end (as `"a\t-"`, which
/// normalizes to `"a\t"` and then to `"a"`).
pub proof fn lemma_normalize_idempotent(v: Seq<char>)
    requires
        normalized_crate_name(v).len() > 0 ==> !unicode_white_space(normalized_crate_name(v)[0])
            && !unicode_white_space(normalized_crate_name(v).last()),
    ensures
        normalized_crate_name(normalized_crate_name(v)) == normalized_crate_name(v),
{
    lemma_normalized_shape(v);
    lemma_settled_is_normalized(normalized_crate_name(v));
}


proof fn lemma_drop_leading_is_suffix(s: Seq<char>) -> (k: int)
    ensures
        0 <= k <= s.len(),
        drop_leading_white_space(s) == s.skip(k),
        forall|j: int| 0 <= j < k ==> unicode_white_space(#[trigger] s[j]),
    decreases s.len(),
{
    if s.len() > 0 && unicode_white_space(s[0]) {
        let k1 = lemma_drop_leading_is_suffix(s.drop_first());
        assert(s.drop_first().skip(k1) =~= s.skip(k1 + 1));
        assert forall|j: int| 0 <= j < k1 + 1 implies unicode_white_space(#[trigger] s[j]) by {
            if j > 0 {
                assert(s[j] == s.drop_first()[j - 1]);
            }
        }
        k1 + 1
    } else {
        assert(s.skip(0) =~= s);
        0
    }
}

proof fn lemma_drop_trailing_is_prefix(s: Seq<char>) -> (k: int)
    ensures
        0 <= k <= s.len(),
        drop_trailing_white_space(s) == s.take(k),
        forall|j: int| k <= j < s.len() ==> unicode_white_space(#[trigger] s[j]),
    decreases s.len(),
{
    if s.len() > 0 && unicode_white_space(s.last()) {
        let k1 = lemma_drop_trailing_is_prefix(s.drop_last());
        assert(s.drop_last().take(k1) =~= s.take(k1));
        assert forall|j: int| k1 <= j < s.len() implies unicode_white_space(#[trigger] s[j]) by {
            if j < s.len() - 1 {
                assert(s[j] == s.drop_last()[j]);
            }
        }
        k1
    } else {
        assert(s.take(s.len() as int) =~= s);
        s.len() as int
    }
}

/// The trimmed text is a stretch of the text that leaves out only whitespace.
proof fn lemma_trimmed_is_stretch(s: Seq<char>) -> (k: int)
    ensures
        0 <= k <= s.len(),
        k + trimmed(s).len() <= s.len(),
        trimmed(s) == s.subrange(k, k + trimmed(s).len()),
        forall|j: int| 0 <= j < k ==> unicode_white_space(#[trigger] s[j]),
        forall|j: int| k + trimmed(s).len() <= j < s.len() ==> unicode_white_space(#[trigger] s[j]),
{
    let k1 = lemma_drop_leading_is_suffix(s);
    let t = s.skip(k1);
    let k2 = lemma_drop_trailing_is_prefix(t);
    assert(t.take(k2) =~= s.subrange(k1, k1 + k2));
    assert forall|j: int| k1 + k2 <= j < s.len() implies unicode_white_space(#[trigger] s[j]) by {
        assert(s[j] == t[j - k1]);
    }
    k1
}

proof fn lemma_collapse_origin(s: Seq<char>)
    ensures
        forall|i: int|
            0 <= i < collapse_hyphens(s).len() ==> exists|j: int|
                0 <= j < s.len() && #[trigger] collapse_hyphens(s)[i] == normalized_char(s[j]),
    decreases s.len(),
{
    if s.len() > 0 {
        lemma_collapse_origin(s.drop_last());
        let prev = collapse_hyphens(s.drop_last());
        let c = collapse_hyphens(s);
        assert forall|i: int| 0 <= i < c.len() implies exists|j: int|
            0 <= j < s.len() && #[trigger] c[i] == normalized_char(s[j]) by {
            if i < prev.len() {
                assert(c[i] == prev[i]);
                let j = choose|j: int|
                    0 <= j < s.drop_last().len() && prev[i] == normalized_char(s.drop_last()[j]);
                assert(s.drop_last()[j] == s[j]);
            } else {
                assert(c[i] == normalized_char(s[s.len() - 1]));
            }
        }
    }
}

/// Every character of a normalized name is the normalized form of a
/// character of the input.
pub proof fn lemma_normalized_origin(v: Seq<char>)
    ensures
        forall|i: int|
            0 <= i < normalized_crate_name(v).len() ==> exists|j: int|
                0 <= j < v.len() && #[trigger] normalized_crate_name(v)[i] == normalized_char(v[j]),
{
    let t = trimmed(v);
    let k = lemma_trimmed_is_stretch(v);
    let c = collapse_hyphens(t);
    lemma_collapse_origin(t);
    lemma_strip_prefix(c);
    let n = normalized_crate_name(v);
    assert forall|i: int| 0 <= i < n.len() implies exists|j: int|
        0 <= j < v.len() && #[trigger] n[i] == normalized_char(v[j]) by {
        assert(n[i] == c[i]);
        let j = choose|j: int| 0 <= j < t.len() && c[i] == normalized_char(t[j]);
        assert(t[j] == v[k + j]);
    }
}

/// Normalizing twice gives the same name as normalizing once when the input
/// holds no whitespace but spaces.
pub proof fn lemma_normalize_idempotent_without_other_whitespace(v: Seq<char>)
    requires
        forall|j: int| 0 <= j < v.len() ==> #[trigger] v[j] == ' ' || !unicode_white_space(v[j]),
    ensures
        normalized_crate_name(normalized_crate_name(v)) == normalized_crate_name(v),
{
    let n = normalized_crate_name(v);
    lemma_normalized_origin(v);
    assert forall|i: int| 0 <= i < n.len() implies !unicode_white_space(#[trigger] n[i]) by {
        let j = choose|j: int| 0 <= j < v.len() && n[i] == normalized_char(v[j]);
        let c = v[j];
        if 'A' <= c && c <= 'Z' {
            let u = (c as u32) + 32;
            assert((u as char) as u32 == u);
        }
    }
    if n.len() > 0 {
        assert(!unicode_white_space(n[0]));
        assert(!unicode_white_space(n[n.len() - 1]));
    }
    lemma_normalize_idempotent(v);
}

/// An ASCII letter or digit.
pub open spec fn is_ascii_alphanumeric(c: char) -> bool {
    ('a' <= c && c <= 'z') || ('A' <= c && c <= 'Z') || ('0' <= c && c <= '9')
}

/// A character of a plainly written name: an ASCII letter or digit, a space,
/// `_` or `-`.
pub open spec fn is_plain_name_char(c: char) -> bool {
    is_ascii_alphanumeric(c) || c == ' ' || c == '_' || c == '-'
}

proof fn lemma_collapse_keeps_a_letter(s: Seq<char>, j: int)
    requires
        0 <= j < s.len(),
        normalized_char(s[j]) != '-',
    ensures
        exists|i: int| 0 <= i < collapse_hyphens(s).len() && #[trigger] collapse_hyphens(s)[i] != '-',
    decreases s.len(),
{
    let prev = collapse_hyphens(s.drop_last());
    let c = collapse_hyphens(s);
    if j == s.len() - 1 {
        assert(c[c.len() - 1] != '-');
    } else {
        assert(s.drop_last()[j] == s[j]);
        lemma_collapse_keeps_a_letter(s.drop_last(), j);
        let i = choose|i: int| 0 <= i < prev.len() && #[trigger] prev[i] != '-';
        assert(c[i] == prev[i]);
    }
}

proof fn lemma_strip_keeps_a_letter(s: Seq<char>, i: int)
    requires
        0 <= i < s.len(),
        s[i] != '-',
    ensures
        strip_trailing_hyphens(s).len() > i,
    decreases s.len(),
{
    if s.len() > 0 && s.last() == '-' {
        assert(s.drop_last()[i] == s[i]);
        lemma_strip_keeps_a_letter(s.drop_last(), i);
    }
}

/// A name written with ASCII letters, digits, spaces, `_` and `-` only, and
/// at least one letter or digit, normalizes to a valid crate name.
pub proof fn lemma_plain_name_normalizes_to_valid(v: Seq<char>)
    requires
        forall|j: int| 0 <= j < v.len() ==> is_plain_name_char(#[trigger] v[j]),
        exists|j: int| 0 <= j < v.len() && is_ascii_alphanumeric(#[trigger] v[j]),
    ensures
        valid_crate_name(normalized_crate_name(v)),
{
    let n = normalized_crate_name(v);
    let t = trimmed(v);
    let k = lemma_trimmed_is_stretch(v);
    let a = choose|j: int| 0 <= j < v.len() && is_ascii_alphanumeric(#[trigger] v[j]);
    let ca = v[a];
    assert(!unicode_white_space(ca));
    assert(k <= a < k + t.len());
    assert(t[a - k] == ca);
    if 'A' <= ca && ca <= 'Z' {
        let u = (ca as u32) + 32;
        assert((u as char) as u32 == u);
    }
    assert(normalized_char(t[a - k]) != '-');
    lemma_collapse_keeps_a_letter(t, a - k);
    let c = collapse_hyphens(t);
    let i = choose|i: int| 0 <= i < c.len() && #[trigger] c[i] != '-';
    lemma_strip_keeps_a_letter(c, i);
    lemma_normalized_shape(v);
    lemma_normalized_origin(v);
    assert forall|p: int| 0 <= p < n.len() implies is_name_char(#[trigger] n[p]) by {
        let j = choose|j: int| 0 <= j < v.len() && n[p] == normalized_char(v[j]);
        let cj = v[j];
        assert(is_plain_name_char(cj));
        if 'A' <= cj && cj <= 'Z' {
            let u = (cj as u32) + 32;
            assert(97 <= u <= 122);
            assert((u as char) as u32 == u);
        }
    }
    assert(n[0] != '_');
    assert(n[n.len() - 1] != '_');
}


/// The number of bytes that UTF-8 takes for a character.
pub open spec fn utf8_width(c: char) -> nat {
    let u = c as u32;
    if u < 0x80 {
        1
    } else if u < 0x800 {
        2
    } else if u < 0x10000 {
        3
    } else {
        4
    }
}

/// The length in bytes of a text encoded as UTF-8.
pub open spec fn utf8_len(s: Seq<char>) -> nat
    decreases s.len(),
{
    if s.len() == 0 {
        0
    } else {
        utf8_len(s.drop_last()) + utf8_width(s.last())
    }
}

proof fn lemma_utf8_len_split(s: Seq<char>, k: int)
    requires
        0 <= k <= s.len(),
    ensures
        utf8_len(s) == utf8_len(s.take(k)) + utf8_len(s.skip(k)),
    decreases s.len(),
{
    if k == s.len() {
        assert(s.take(k) =~= s);
        assert(s.skip(k) =~= Seq::<char>::empty());
    } else {
        lemma_utf8_len_split(s.drop_last(), k);
        assert(s.drop_last().take(k) =~= s.take(k));
        assert(s.drop_last().skip(k) =~= s.skip(k).drop_last());
        assert(s.skip(k).last() == s.last());
    }
}

proof fn lemma_collapse_no_longer(s: Seq<char>)
    ensures
        utf8_len(collapse_hyphens(s)) <= utf8_len(s),
    decreases s.len(),
{
    if s.len() > 0 {
        lemma_collapse_no_longer(s.drop_last());
        let prev = collapse_hyphens(s.drop_last());
        let c = s.last();
        if 'A' <= c && c <= 'Z' {
            let u = (c as u32) + 32;
            assert((u as char) as u32 == u);
        }
        assert(utf8_width(normalized_char(c)) == utf8_width(c));
        assert(prev.push(normalized_char(c)).drop_last() =~= prev);
    }
}

/// Normalization never makes a name longer in UTF-8 bytes: it drops
/// characters and replaces others by characters of the same width.
pub proof fn lemma_normalize_no_longer(v: Seq<char>)
    ensures
        utf8_len(normalized_crate_name(v)) <= utf8_len(v),
{
    let t = trimmed(v);
    let k = lemma_trimmed_is_stretch(v);
    lemma_utf8_len_split(v, k);
    lemma_utf8_len_split(v.skip(k), t.len() as int);
    assert(v.skip(k).take(t.len() as int) =~= t);
    lemma_collapse_no_longer(t);
    let c = collapse_hyphens(t);
    lemma_strip_prefix(c);
    lemma_utf8_len_split(c, strip_trailing_hyphens(c).len() as int);
}

} // verus!
