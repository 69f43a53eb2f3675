//! Helpers for emitting valid Lua source from arbitrary data.
use crate::dat_reader::utf8_lossy;
use crate::text::{append_str, chars_of, string_from_chars};
use regex::Regex;
use std::collections::HashMap;
use vstd::prelude::*;
use vstd::string::StringSliceAdditionalSpecFns;
use vstd::utf8::{
    decode_utf8, encode_utf8_valid_utf8, is_char_boundary, is_char_boundary_iff_not_is_continuation_byte,
    is_char_boundary_start_end_of_seq, is_leading_byte_width_1, partial_valid_utf8, partial_valid_utf8_extend_ascii_block,
    valid_utf8, valid_utf8_concat, valid_utf8_split,
};

verus! {

/// What one character becomes inside a double-quoted Lua string literal.
pub open spec fn escape_char(c: char) -> Seq<char> {
    if c == '\\' {
        seq!['\\', '\\']
    } else if c == '"' {
        seq!['\\', '"']
    } else if c == '\n' {
        seq!['\\', 'n']
    } else if c == '\r' {
        seq!['\\', 'r']
    } else if c == '\t' {
        seq!['\\', 't']
    } else {
        seq![c]
    }
}

/// The escaped form of `s`: each character escaped in turn.
pub open spec fn escape_seq(s: Seq<char>) -> Seq<char>
    decreases s.len(),
{
    if s.len() == 0 {
        Seq::empty()
    } else {
        escape_seq(s.drop_last()) + escape_char(s.last())
    }
}

/// Escape a string so it can be embedded inside a double-quoted Lua string
/// literal: backslashes, double quotes, and the line-feed, carriage-return
/// and tab characters are written as their escapes; every other character is
/// kept.
pub fn escape_lua_string(value: &str) -> (r: String)
    ensures
        r@ == escape_seq(value@),
{
    let cs = chars_of(value);
    let mut out: Vec<char> = Vec::new();
    let mut i: usize = 0;
    while i < cs.len()
        invariant
            i <= cs@.len(),
            cs@ == value@,
            out@ == escape_seq(cs@.take(i as int)),
        decreases cs@.len() - i,
    {
        let ch = cs[i];
        if ch == '\\' {
            out.push('\\');
            out.push('\\');
        } else if ch == '"' {
            out.push('\\');
            out.push('"');
        } else if ch == '\n' {
            out.push('\\');
            out.push('n');
        } else if ch == '\r' {
            out.push('\\');
            out.push('r');
        } else if ch == '\t' {
            out.push('\\');
            out.push('t');
        } else {
            out.push(ch);
        }
        proof {
            let t = cs@.take(i + 1);
            assert(t.drop_last() =~= cs@.take(i as int));
            assert(out@ =~= escape_seq(t));
        }
        i = i + 1;
    }
    proof {
        assert(cs@.take(i as int) =~= cs@);
    }
    string_from_chars(&out)
}

/// Text in which no character needs an escape (no `\`, `"`, line feed,
/// carriage return or tab) is left unchanged.
pub proof fn lemma_plain_text_unchanged(s: Seq<char>)
    requires
        forall|i: int| 0 <= i < s.len() ==> #[trigger] escape_char(s[i]) == seq![s[i]],
    ensures
        escape_seq(s) == s,
    decreases s.len(),
{
    if s.len() > 0 {
        let t = s.drop_last();
        assert forall|i: int| 0 <= i < t.len() implies #[trigger] escape_char(t[i]) == seq![t[i]] by {
            assert(t[i] == s[i]);
        }
        lemma_plain_text_unchanged(t);
        assert(escape_char(s[s.len() - 1]) == seq![s.last()]);
        assert(s =~= t + seq![s.last()]);
    }
}

/// What Lua reads inside a double-quoted string literal: `\\`, `\"`,
/// `\n`, `\r` and `\t` stand for a backslash, a double quote, a line feed,
/// a carriage return and a tab; any other character stands for itself.
pub open spec fn lua_unescape(t: Seq<char>) -> Seq<char>
    decreases t.len(),
{
    if t.len() == 0 {
        Seq::empty()
    } else if t.len() >= 2 && t[0] == '\\' {
        let c = t[1];
        let r = if c == 'n' { '\n' } else if c == 'r' { '\r' } else if c == 't' { '\t' } else { c };
        seq![r] + lua_unescape(t.subrange(2, t.len() as int))
    } else {
        seq![t[0]] + lua_unescape(t.subrange(1, t.len() as int))
    }
}

proof fn lemma_escape_front(s: Seq<char>)
    requires
        s.len() > 0,
    ensures
        escape_seq(s) == escape_char(s[0]) + escape_seq(s.drop_first()),
    decreases s.len(),
{
    if s.len() == 1 {
        assert(s.drop_last() =~= Seq::<char>::empty());
        assert(s.drop_first() =~= Seq::<char>::empty());
        assert(escape_seq(s.drop_last()) == Seq::<char>::empty());
        assert(s.last() == s[0]);
        assert(escape_seq(s) =~= escape_char(s[0]));
        assert(escape_char(s[0]) + Seq::<char>::empty() =~= escape_char(s[0]));
    } else {
        lemma_escape_front(s.drop_last());
        assert(s.drop_last().drop_first() =~= s.drop_first().drop_last());
        assert(s.drop_first().last() == s.last());
        assert(s.drop_last()[0] == s[0]);
        assert(escape_seq(s) =~= escape_char(s[0]) + escape_seq(s.drop_first()));
    }
}

/// Reading an escaped string back as Lua does gives the original string:
/// escaping loses nothing and adds nothing.
pub proof fn lemma_escape_roundtrip(s: Seq<char>)
    ensures
        lua_unescape(escape_seq(s)) == s,
    decreases s.len(),
{
    if s.len() > 0 {
        lemma_escape_front(s);
        lemma_escape_roundtrip(s.drop_first());
        let e = escape_char(s[0]);
        let rest = escape_seq(s.drop_first());
        let t = e + rest;
        if e.len() == 2 {
            assert(t.subrange(2, t.len() as int) =~= rest);
        } else {
            assert(t.subrange(1, t.len() as int) =~= rest);
        }
        assert(seq![s[0]] + s.drop_first() =~= s);
    }
}

// ---------------------------------------------------------------------------
// Rewriting integer fields

/// One match of `<field> = <digits>`, as byte ranges of the text: the whole
/// match, the `<field> =` part with its spacing, and the digits.
pub type FieldMatch = (usize, usize, usize, usize, usize, usize);

/// A character with a meaning in a regex (`regex_syntax::is_meta_character`).
pub open spec fn is_meta(c: char) -> bool {
    c == '\\' || c == '.' || c == '+' || c == '*' || c == '?' || c == '(' || c == ')' || c == '|' || c == '['
        || c == ']' || c == '{' || c == '}' || c == '^' || c == '$' || c == '#' || c == '&' || c == '-' || c == '~'
}

/// `s` escaped for a regex: a backslash before every meta character.
pub open spec fn escaped(s: Seq<char>) -> Seq<char>
    decreases s.len(),
{
    if s.len() == 0 {
        Seq::empty()
    } else if is_meta(s.last()) {
        escaped(s.drop_last()) + seq!['\\', s.last()]
    } else {
        escaped(s.drop_last()).push(s.last())
    }
}

/// The pattern that finds `<field> = <digits>`: `(?m)(\b<field>\s*=\s*)(\d+)`
/// with the field escaped.
pub open spec fn field_pattern(field: Seq<char>) -> Seq<char> {
    "(?m)(\\b"@ + escaped(field) + "\\s*=\\s*)(\\d+)"@
}

/// `regex::escape` (regex crate): every regex meta character of `field`
/// gets a backslash before it, every other character is kept.
#[verifier::external_body]
fn escape_field(field: &str) -> (r: String)
    ensures
        r@ == escaped(field@),
{
    regex::escape(field)
}

/// The search pattern for `field`.
fn build_field_pattern(field: &str) -> (r: String)
    ensures
        r@ == field_pattern(field@),
{
    let mut s = String::new();
    append_str(&mut s, "(?m)(\\b");
    let e = escape_field(field);
    append_str(&mut s, e.as_str());
    append_str(&mut s, "\\s*=\\s*)(\\d+)");
    s
}

/// Whether `Regex::new` accepts `pattern`.
pub uninterp spec fn pattern_compiles(pattern: Seq<char>) -> bool;

/// The matches, leftmost first and without overlap, of `pattern` in `text`:
/// for each, the byte ranges of the whole match and of groups 1 and 2.
pub uninterp spec fn pattern_int_matches(pattern: Seq<char>, text: Seq<char>) -> Seq<FieldMatch>;

/// Every range lies in `len` bytes with its start before its end, and each
/// match ends before the next one starts.
pub open spec fn matches_in_order(ms: Seq<FieldMatch>, len: int) -> bool {
    &&& forall|i: int|
        0 <= i < ms.len() ==> {
            let m = #[trigger] ms[i];
            m.0 <= m.1 <= len && m.2 <= m.3 <= len && m.4 <= m.5 <= len
        }
    &&& forall|i: int| 0 <= i < ms.len() - 1 ==> (#[trigger] ms[i]).1 <= ms[i + 1].0
}

/// How every match of `(\b<field>\s*=\s*)(\d+)` lies in the bytes `b` of
/// the text: the first group starts the match and begins with the field's
/// bytes `f`, the digits follow it directly and end the match, there is at
/// least one digit.
pub open spec fn match_shapes(ms: Seq<FieldMatch>, b: Seq<u8>, f: Seq<u8>) -> bool {
    forall|i: int|
        0 <= i < ms.len() ==> {
            let m = #[trigger] ms[i];
            &&& m.0 == m.2 && m.3 == m.4 && m.4 < m.5 && m.5 == m.1
            &&& m.0 + f.len() <= m.3 && b.subrange(m.0 as int, m.0 + f.len()) == f
        }
}

/// The start and end of every match and of its first group fall on
/// character boundaries of the UTF-8 bytes `b`.
pub open spec fn on_char_boundaries(ms: Seq<FieldMatch>, b: Seq<u8>) -> bool {
    forall|i: int|
        0 <= i < ms.len() ==> {
            let m = #[trigger] ms[i];
            &&& is_char_boundary(b, m.0 as int) && is_char_boundary(b, m.1 as int)
            &&& is_char_boundary(b, m.2 as int) && is_char_boundary(b, m.3 as int)
        }
}

/// `Regex::new` and `Regex::captures_iter` (regex crate) on a pattern
/// `field_pattern(f)`: the byte ranges of every match in `text` and of its two
/// groups, which always take part in a match. `Regex::new` fails only on a
/// syntax error, which an escaped field cannot cause, or when the compiled
/// pattern exceeds the default size limit (10 MiB), far above what a field of
/// 64 characters gives; whether it succeeds is named. Match and group
/// offsets lie within the text on character boundaries (as the crate
/// documents for its `&str` API), each start before its end, successive
/// matches do not overlap, and each match has the shape of the pattern
/// (`match_shapes`).
#[verifier::external_body]
fn find_pattern_ints(pattern: &str, text: &str) -> (r: Result<Vec<FieldMatch>, String>)
    requires
        exists|f: Seq<char>| pattern@ == #[trigger] field_pattern(f),
    ensures
        (r is Ok) == pattern_compiles(pattern@),
        forall|f: Seq<char>| pattern@ == #[trigger] field_pattern(f) && f.len() <= 64 ==> r is Ok,
        r matches Ok(v) ==> v@ == pattern_int_matches(pattern@, text@) && matches_in_order(v@, text.spec_bytes().len() as int)
            && on_char_boundaries(v@, text.spec_bytes()) && forall|f: Seq<char>|
            pattern@ == #[trigger] field_pattern(f) ==> match_shapes(v@, text.spec_bytes(), vstd::utf8::encode_utf8(f)),
{
    let re = Regex::new(pattern).map_err(|e| e.to_string())?;
    Ok(re
        .captures_iter(text)
        .map(|c| {
            let (m, a, b) = (c.get(0).unwrap(), c.get(1).unwrap(), c.get(2).unwrap());
            (m.start(), m.end(), a.start(), a.end(), b.start(), b.end())
        })
        .collect())
}

/// An ASCII decimal digit.
pub open spec fn is_digit(b: u8) -> bool {
    48 <= b <= 57
}

/// The value of a run of decimal digits.
pub open spec fn digits_value(s: Seq<u8>) -> nat
    decreases s.len(),
{
    if s.len() == 0 {
        0
    } else {
        10 * digits_value(s.drop_last()) + (s.last() - 48) as nat
    }
}

/// Every byte is an ASCII digit.
pub open spec fn all_digits(d: Seq<u8>) -> bool {
    forall|i: int| 0 <= i < d.len() ==> is_digit(#[trigger] d[i])
}

/// The bytes after an optional leading `+`.
pub open spec fn unsigned_part(s: Seq<u8>) -> Seq<u8> {
    if s.len() > 0 && s[0] == 43 { s.drop_first() } else { s }
}

/// What `str::parse::<u32>` makes of the bytes: an optional `+` then at
/// least one ASCII digit, with a value that fits a `u32`.
pub open spec fn parse_u32(s: Seq<u8>) -> Option<u32> {
    let d = unsigned_part(s);
    if d.len() > 0 && all_digits(d) && digits_value(d) <= u32::MAX {
        Some(digits_value(d) as u32)
    } else {
        None
    }
}

fn parse_digits(b: &[u8], lo: usize, hi: usize) -> (r: Option<u32>)
    requires
        lo <= hi <= b@.len(),
    ensures
        r == parse_u32(b@.subrange(lo as int, hi as int)),
{
    let ghost s = b@.subrange(lo as int, hi as int);
    let start = if lo < hi && b[lo] == 43 { lo + 1 } else { lo };
    let ghost d = b@.subrange(start as int, hi as int);
    proof {
        if lo < hi && b@[lo as int] == 43 {
            assert(d =~= s.drop_first());
        } else {
            assert(d =~= s);
        }
    }
    if start == hi {
        return None;
    }
    let mut v: u64 = 0;
    let mut i = start;
    while i < hi
        invariant
            lo <= start <= i <= hi <= b@.len(),
            d == b@.subrange(start as int, hi as int),
            d.len() > 0,
            d == unsigned_part(b@.subrange(lo as int, hi as int)),
            forall|j: int| start <= j < i ==> is_digit(b@[j]),
            v == digits_value(b@.subrange(start as int, i as int)),
            v <= u32::MAX,
        decreases hi - i,
    {
        let c = b[i];
        if c < 48 || c > 57 {
            proof {
                assert(d[i - start] == b@[i as int]);
                lemma_parse_none(b@.subrange(lo as int, hi as int), d, i - start);
            }
            return None;
        }
        proof {
            assert(b@.subrange(start as int, i + 1).drop_last() =~= b@.subrange(start as int, i as int));
        }
        let next = v * 10 + (c - 48) as u64;
        if next > 0xFFFF_FFFF {
            proof {
                assert(b@.subrange(start as int, i + 1) =~= d.subrange(0, i + 1 - start));
                lemma_parse_too_big(b@.subrange(lo as int, hi as int), d, (i + 1 - start) as int);
            }
            return None;
        }
        v = next;
        i = i + 1;
    }
    proof {
        assert(b@.subrange(start as int, i as int) =~= d);
    }
    Some(v as u32)
}

/// A byte that is not a digit makes the parse fail.
proof fn lemma_parse_none(s: Seq<u8>, d: Seq<u8>, k: int)
    requires
        d == unsigned_part(s),
        0 <= k < d.len(),
        !is_digit(d[k]),
    ensures
        parse_u32(s) is None,
{
}

/// A prefix of digits past `u32::MAX` makes the parse fail.
proof fn lemma_parse_too_big(s: Seq<u8>, d: Seq<u8>, k: int)
    requires
        d == unsigned_part(s),
        0 <= k <= d.len(),
        digits_value(d.subrange(0, k)) > u32::MAX,
    ensures
        parse_u32(s) is None,
{
    if all_digits(d) {
        lemma_digits_grow(d, k);
    }
}

/// A longer run of digits has a value at least that of its prefix.
proof fn lemma_digits_grow(d: Seq<u8>, k: int)
    requires
        0 <= k <= d.len(),
        all_digits(d),
    ensures
        digits_value(d) >= digits_value(d.subrange(0, k)),
    decreases d.len(),
{
    if k < d.len() {
        let t = d.drop_last();
        assert forall|i: int| 0 <= i < t.len() implies is_digit(#[trigger] t[i]) by {
            assert(t[i] == d[i]);
        }
        assert(all_digits(t));
        lemma_digits_grow(t, k);
        assert(t.subrange(0, k) =~= d.subrange(0, k));
    } else {
        assert(d.subrange(0, k) =~= d);
    }
}

/// The decimal digits of `n`, as `format!("{}", n)` writes them.
pub open spec fn decimal(n: nat) -> Seq<u8>
    decreases n,
{
    if n < 10 {
        seq![(48 + n) as u8]
    } else {
        decimal(n / 10).push((48 + n % 10) as u8)
    }
}

pub(crate) fn push_decimal(out: &mut Vec<u8>, n: u32)
    ensures
        final(out)@ == old(out)@ + decimal(n as nat),
    decreases n,
{
    if n >= 10 {
        push_decimal(out, n / 10);
    }
    out.push(48 + (n % 10) as u8);
    proof {
        if n >= 10 {
            assert(final(out)@ =~= old(out)@ + decimal(n as nat));
        } else {
            assert(final(out)@ =~= old(out)@ + decimal(n as nat));
        }
    }
}

fn push_range(out: &mut Vec<u8>, b: &[u8], lo: usize, hi: usize)
    requires
        lo <= hi <= b@.len(),
    ensures
        final(out)@ == old(out)@ + b@.subrange(lo as int, hi as int),
{
    let mut i = lo;
    while i < hi
        invariant
            lo <= i <= hi <= b@.len(),
            out@ == old(out)@ + b@.subrange(lo as int, i as int),
        decreases hi - i,
    {
        out.push(b[i]);
        proof {
            assert(b@.subrange(lo as int, i + 1) =~= b@.subrange(lo as int, i as int).push(b@[i as int]));
        }
        i = i + 1;
    }
}

/// The new id a match's digits map to, if they parse and are mapped.
pub open spec fn match_target(b: Seq<u8>, m: FieldMatch, map: Map<u32, u32>) -> Option<u32> {
    match parse_u32(b.subrange(m.4 as int, m.5 as int)) {
        Some(n) => if map.contains_key(n) {
            Some(map[n])
        } else {
            None
        },
        None => None,
    }
}

/// The text of the first `i` matches rewritten: the bytes before each match
/// kept, each mapped match replaced by its `<field> =` part and the new id,
/// each other match kept; and how many were replaced.
pub open spec fn rewrite_prefix(b: Seq<u8>, ms: Seq<FieldMatch>, map: Map<u32, u32>, i: nat) -> (Seq<u8>, nat)
    decreases i,
{
    if i == 0 || i > ms.len() {
        (Seq::empty(), 0)
    } else {
        let (o, c) = rewrite_prefix(b, ms, map, (i - 1) as nat);
        let last: int = if i == 1 { 0 } else { ms[i - 2].1 as int };
        let m = ms[i - 1];
        let gap = b.subrange(last, m.0 as int);
        match match_target(b, m, map) {
            Some(new_id) => (o + gap + b.subrange(m.2 as int, m.3 as int) + decimal(new_id as nat), c + 1),
            None => (o + gap + b.subrange(m.0 as int, m.1 as int), c),
        }
    }
}

/// The bytes of `text` with every `<field> = <int>` whose int is mapped
/// rewritten to the new id, and the count of rewrites.
pub open spec fn spec_remap(b: Seq<u8>, ms: Seq<FieldMatch>, map: Map<u32, u32>) -> (Seq<u8>, nat) {
    let (o, c) = rewrite_prefix(b, ms, map, ms.len());
    let last: int = if ms.len() == 0 { 0 } else { ms.last().1 as int };
    (o + b.subrange(last, b.len() as int), c)
}

/// A slice of valid UTF-8 between two character boundaries is valid UTF-8.
proof fn lemma_valid_sub(b: Seq<u8>, i: int, j: int)
    requires
        valid_utf8(b),
        0 <= i <= j <= b.len(),
        is_char_boundary(b, i),
        is_char_boundary(b, j),
    ensures
        valid_utf8(b.subrange(i, j)),
{
    valid_utf8_split(b, i);
    let t = b.subrange(i, b.len() as int);
    if j == b.len() {
        is_char_boundary_start_end_of_seq(t);
        assert(t.len() == j - i);
    } else {
        is_char_boundary_iff_not_is_continuation_byte(b, j);
        is_char_boundary_iff_not_is_continuation_byte(t, j - i);
        assert(t[j - i] == b[j]);
    }
    valid_utf8_split(t, j - i);
    assert(t.subrange(0, j - i) =~= b.subrange(i, j));
}

/// Bytes below 0x80 are valid UTF-8.
proof fn lemma_ascii_valid(d: Seq<u8>)
    requires
        forall|k: int| 0 <= k < d.len() ==> d[k] < 128,
    ensures
        valid_utf8(d),
{
    assert(d.subrange(0, 0) =~= Seq::<u8>::empty());
    assert(partial_valid_utf8(d, 0));
    assert forall|k: int| 0 <= 0 <= k < d.len() <= d.len() implies #[trigger] is_leading_byte_width_1(d[k]) by {}
    partial_valid_utf8_extend_ascii_block(d, 0, d.len() as int);
    assert(d.subrange(0, d.len() as int) =~= d);
}

/// A number in decimal is ASCII digits.
proof fn lemma_decimal_ascii(n: nat)
    ensures
        forall|k: int| 0 <= k < decimal(n).len() ==> #[trigger] decimal(n)[k] < 128,
    decreases n,
{
    if n >= 10 {
        lemma_decimal_ascii(n / 10);
        let d = decimal(n / 10);
        assert(decimal(n) == d.push((48 + n % 10) as u8));
        assert forall|k: int| 0 <= k < decimal(n).len() implies #[trigger] decimal(n)[k] < 128 by {
            if k < d.len() {
                assert(decimal(n)[k] == d[k]);
            }
        }
    }
}

/// Rewriting valid UTF-8 at matches that lie on character boundaries gives
/// valid UTF-8.
proof fn lemma_prefix_valid(b: Seq<u8>, ms: Seq<FieldMatch>, map: Map<u32, u32>, i: nat)
    requires
        valid_utf8(b),
        matches_in_order(ms, b.len() as int),
        on_char_boundaries(ms, b),
        i <= ms.len(),
    ensures
        valid_utf8(rewrite_prefix(b, ms, map, i).0),
    decreases i,
{
    if i == 0 {
        assert(valid_utf8(Seq::<u8>::empty()));
    } else {
        lemma_prefix_valid(b, ms, map, (i - 1) as nat);
        let o = rewrite_prefix(b, ms, map, (i - 1) as nat).0;
        let last: int = if i == 1 { 0 } else { ms[i - 2].1 as int };
        let m = ms[i - 1];
        assert(m.0 <= m.1 <= b.len() && m.2 <= m.3 <= b.len());
        if i > 1 {
            let p = ms[i - 2];
            assert(p.1 <= m.0);
            assert(is_char_boundary(b, p.1 as int));
        } else {
            is_char_boundary_start_end_of_seq(b);
        }
        lemma_valid_sub(b, last, m.0 as int);
        let gap = b.subrange(last, m.0 as int);
        valid_utf8_concat(o, gap);
        match match_target(b, m, map) {
            Some(new_id) => {
                lemma_valid_sub(b, m.2 as int, m.3 as int);
                valid_utf8_concat(o + gap, b.subrange(m.2 as int, m.3 as int));
                lemma_decimal_ascii(new_id as nat);
                lemma_ascii_valid(decimal(new_id as nat));
                valid_utf8_concat(o + gap + b.subrange(m.2 as int, m.3 as int), decimal(new_id as nat));
            },
            None => {
                lemma_valid_sub(b, m.0 as int, m.1 as int);
                valid_utf8_concat(o + gap, b.subrange(m.0 as int, m.1 as int));
            },
        }
    }
}

/// The rewritten text is valid UTF-8.
proof fn lemma_remap_valid(b: Seq<u8>, ms: Seq<FieldMatch>, map: Map<u32, u32>)
    requires
        valid_utf8(b),
        matches_in_order(ms, b.len() as int),
        on_char_boundaries(ms, b),
    ensures
        valid_utf8(spec_remap(b, ms, map).0),
{
    lemma_prefix_valid(b, ms, map, ms.len());
    let last: int = if ms.len() == 0 { 0 } else { ms.last().1 as int };
    if ms.len() > 0 {
        assert(is_char_boundary(b, ms[ms.len() - 1].1 as int));
        assert(ms[ms.len() - 1].1 <= b.len());
    } else {
        is_char_boundary_start_end_of_seq(b);
    }
    is_char_boundary_start_end_of_seq(b);
    lemma_valid_sub(b, last, b.len() as int);
    valid_utf8_concat(rewrite_prefix(b, ms, map, ms.len()).0, b.subrange(last, b.len() as int));
}

/// Rewrite the `<field> = <int>` occurrences of Lua source through `map`,
/// leaving every other byte untouched: the new text (valid UTF-8, since
/// only ASCII digit runs change) and how many numbers were replaced. Integers absent from `map`
/// stay. An error only when the field's pattern cannot be compiled, which
/// does not happen for a field of up to 64 characters.
pub fn remap_lua_int_field(text: &str, field: &str, map: &HashMap<u32, u32>) -> (r: Result<(String, usize), String>)
    ensures
        (r is Ok) == pattern_compiles(field_pattern(field@)),
        field@.len() <= 64 ==> r is Ok,
        r matches Ok((out, n)) ==> ({
            let (bytes, count) = spec_remap(text.spec_bytes(), pattern_int_matches(field_pattern(field@), text@), map@);
            valid_utf8(bytes) && out@ == decode_utf8(bytes) && n == count
        }),
{
    let pattern = build_field_pattern(field);
    assert(pattern@ == field_pattern(field@));
    let ms = match find_pattern_ints(pattern.as_str(), text) {
        Ok(ms) => ms,
        Err(e) => {
            return Err(e);
        },
    };
    Ok(rewrite_field_matches(text, &ms, map))
}

/// Rewrite `text` at the given `<field> = <int>` matches through `map`,
/// leaving every other byte untouched: the new text, valid UTF-8 since the
/// matches lie on character boundaries, and how many numbers were replaced.
pub fn rewrite_field_matches(text: &str, ms: &Vec<FieldMatch>, map: &HashMap<u32, u32>) -> (r: (String, usize))
    requires
        matches_in_order(ms@, text.spec_bytes().len() as int),
        on_char_boundaries(ms@, text.spec_bytes()),
    ensures
        ({
            let (bytes, count) = spec_remap(text.spec_bytes(), ms@, map@);
            valid_utf8(bytes) && r.0@ == decode_utf8(bytes) && r.1 == count
        }),
{
    let b = text.as_bytes();
    let mut out: Vec<u8> = Vec::new();
    let mut count: usize = 0;
    let mut last: usize = 0;
    let mut i: usize = 0;
    while i < ms.len()
        invariant
            i <= ms@.len(),
            matches_in_order(ms@, b@.len() as int),
            last == (if i == 0 { 0 } else { ms@[i - 1].1 as int }),
            last <= b@.len(),
            (out@, count as nat) == rewrite_prefix(b@, ms@, map@, i as nat),
            count <= i,
        decreases ms@.len() - i,
    {
        let (start, end, p_lo, p_hi, d_lo, d_hi) = ms[i];
        proof {
            if i > 0 {
                assert(ms@[i - 1].1 <= ms@[i as int].0);
            }
            let m = ms@[i as int];
            assert(m.0 <= m.1 <= b@.len() && m.2 <= m.3 <= b@.len() && m.4 <= m.5 <= b@.len());
        }
        push_range(&mut out, b, last, start);
        let target = match parse_digits(b, d_lo, d_hi) {
            Some(n) => match map.get(&n) {
                Some(new_id) => Some(*new_id),
                None => None,
            },
            None => None,
        };
        match target {
            Some(new_id) => {
                push_range(&mut out, b, p_lo, p_hi);
                push_decimal(&mut out, new_id);
                count = count + 1;
            },
            None => {
                push_range(&mut out, b, start, end);
            },
        }
        last = end;
        i = i + 1;
    }
    push_range(&mut out, b, last, b.len());
    let text_out = utf8_lossy(&out, 0, out.len());
    proof {
        assert(out@.subrange(0, out@.len() as int) =~= out@);
        encode_utf8_valid_utf8(text@);
        lemma_remap_valid(b@, ms@, map@);
    }
    (text_out, count)
}

} // verus!
