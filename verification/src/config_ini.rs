//! Reader and rewriter for the client's `conf/config.ini`, focused on one
//! section. The whole file is preserved (comments, other sections, order);
//! only the values of existing keys of the chosen section are replaced.
use vstd::prelude::*;
use crate::text::{
    chars_eq, chars_of, first_non_ws, is_ws, lemma_trim_end_skip, lower_chars, lower_seq, string_from_chars,
    trim_end_seq, trim_range, trim_seq, trim_start_seq,
};

verus! {

/// One `key=value` entry of a section, in file order.
pub struct IniEntry {
    pub key: String,
    pub value: String,
}

/// The name of a section header line, trimmed and ASCII-lowercased:
/// `[URLS]` and `[urls]` both give `urls`.
pub open spec fn spec_section_name(line: Seq<char>) -> Option<Seq<char>> {
    let t = trim_seq(line);
    if t.len() >= 2 && t[0] == '[' && t[t.len() - 1] == ']' {
        Some(lower_seq(trim_seq(t.subrange(1, t.len() - 1))))
    } else {
        None
    }
}

/// Index of the first `c` in `s` at or after `i`.
pub open spec fn find_from(s: Seq<char>, c: char, i: int) -> Option<int>
    decreases s.len() + 1 - i,
{
    if i < 0 || i >= s.len() {
        None
    } else if s[i] == c {
        Some(i)
    } else {
        find_from(s, c, i + 1)
    }
}

/// A `key=value` line split into its trimmed key and value; blank lines,
/// comments (`;` or `#`), lines without `=` and empty keys give `None`.
pub open spec fn spec_split_kv(line: Seq<char>) -> Option<(Seq<char>, Seq<char>)> {
    let t = trim_start_seq(line);
    if t.len() == 0 || t[0] == ';' || t[0] == '#' {
        None
    } else {
        match find_from(line, '=', 0) {
            None => None,
            Some(eq) => {
                let key = trim_seq(line.subrange(0, eq));
                if key.len() == 0 {
                    None
                } else {
                    Some((key, trim_seq(line.subrange(eq + 1, line.len() as int))))
                }
            },
        }
    }
}

proof fn lemma_find_from(s: Seq<char>, c: char, i: int)
    ensures
        find_from(s, c, i) matches Some(k) ==> i <= k < s.len() && 0 <= k && s[k] == c,
    decreases s.len() + 1 - i,
{
    if 0 <= i < s.len() && s[i] != c {
        lemma_find_from(s, c, i + 1);
    }
}

/// Case-insensitive section-header match.
fn section_name(line: &Vec<char>) -> (r: Option<Vec<char>>)
    ensures
        match spec_section_name(line@) {
            Some(n) => r matches Some(v) && v@ == n,
            None => r is None,
        },
{
    let t = trim_range(line, 0, line.len());
    assert(line@.subrange(0, line@.len() as int) =~= line@);
    let n = t.len();
    if n >= 2 && t[0] == '[' && t[n - 1] == ']' {
        let inner = trim_range(&t, 1, n - 1);
        Some(lower_chars(&inner))
    } else {
        None
    }
}

/// Index of the first `c` in `v`.
fn find_char(v: &Vec<char>, c: char) -> (r: Option<usize>)
    ensures
        match find_from(v@, c, 0) {
            Some(i) => r == Some(i as usize),
            None => r is None,
        },
{
    let mut i: usize = 0;
    while i < v.len()
        invariant
            i <= v@.len(),
            find_from(v@, c, i as int) == find_from(v@, c, 0),
        decreases v.len() - i,
    {
        if v[i] == c {
            return Some(i);
        }
        i = i + 1;
    }
    None
}

/// Split a `key=value` line into its trimmed key and value.
fn split_kv(line: &Vec<char>) -> (r: Option<(Vec<char>, Vec<char>)>)
    ensures
        match spec_split_kv(line@) {
            Some(kv) => r matches Some(p) && p.0@ == kv.0 && p.1@ == kv.1,
            None => r is None,
        },
{
    let a = first_non_ws(line);
    if a == line.len() || line[a] == ';' || line[a] == '#' {
        return None;
    }
    assert(trim_start_seq(line@)[0] == line@[a as int]);
    proof {
        lemma_find_from(line@, '=', 0);
    }
    let eq = match find_char(line, '=') {
        Some(e) => e,
        None => return None,
    };
    let key = trim_range(line, 0, eq);
    if key.len() == 0 {
        return None;
    }
    let value = trim_range(line, eq + 1, line.len());
    Some((key, value))
}

/// Where the piece starting at `cur` ends, scanning from `i`: the pieces of a
/// text are its lines, each keeping its `\n` (`str::split_inclusive('\n')`).
pub open spec fn pieces_acc(s: Seq<char>, i: int, cur: int) -> Seq<Seq<char>>
    decreases s.len() + 1 - i,
{
    if i < 0 || i >= s.len() {
        if 0 <= cur < s.len() { seq![s.subrange(cur, s.len() as int)] } else { Seq::empty() }
    } else if s[i] == '\n' {
        seq![s.subrange(cur, i + 1)] + pieces_acc(s, i + 1, i + 1)
    } else {
        pieces_acc(s, i + 1, cur)
    }
}

/// `str::split_inclusive('\n')`.
pub open spec fn pieces(s: Seq<char>) -> Seq<Seq<char>> {
    pieces_acc(s, 0, 0)
}

/// The pieces of `text`, each keeping its final `\n`.
fn split_pieces(text: &Vec<char>) -> (r: Vec<Vec<char>>)
    ensures
        r@.map_values(|p: Vec<char>| p@) == pieces(text@),
{
    let mut out: Vec<Vec<char>> = Vec::new();
    let mut cur: usize = 0;
    let mut i: usize = 0;
    while i < text.len()
        invariant
            cur <= i <= text@.len(),
            out@.map_values(|p: Vec<char>| p@) + pieces_acc(text@, i as int, cur as int) == pieces(text@),
        decreases text.len() - i,
    {
        if text[i] == '\n' {
            let piece = sub_piece(text, cur, i + 1);
            let ghost prev = out@;
            out.push(piece);
            assert(out@.map_values(|p: Vec<char>| p@) =~= prev.map_values(|p: Vec<char>| p@) + seq![text@.subrange(cur as int, i + 1)]);
            cur = i + 1;
        }
        i = i + 1;
    }
    if cur < text.len() {
        let piece = sub_piece(text, cur, text.len());
        let ghost prev = out@;
        out.push(piece);
        assert(out@.map_values(|p: Vec<char>| p@) =~= prev.map_values(|p: Vec<char>| p@) + seq![text@.subrange(cur as int, text@.len() as int)]);
    } else {
        assert(out@.map_values(|p: Vec<char>| p@) =~= out@.map_values(|p: Vec<char>| p@) + Seq::<Seq<char>>::empty());
    }
    out
}

fn sub_piece(v: &Vec<char>, lo: usize, hi: usize) -> (r: Vec<char>)
    requires
        lo <= hi <= v@.len(),
    ensures
        r@ == v@.subrange(lo as int, hi as int),
{
    crate::text::sub_chars(v, lo, hi)
}

/// A piece without its line ending, as `str::lines` gives it: a final `\n`
/// is removed, and then a `\r` right before it.
pub open spec fn strip_line_ending(p: Seq<char>) -> Seq<char> {
    if p.len() > 0 && p[p.len() - 1] == '\n' {
        let q = p.drop_last();
        if q.len() > 0 && q[q.len() - 1] == '\r' { q.drop_last() } else { q }
    } else {
        p
    }
}

/// A piece with every trailing `\r` and `\n` removed
/// (`trim_end_matches(['\r', '\n'])`).
pub open spec fn strip_all_endings(p: Seq<char>) -> Seq<char>
    decreases p.len(),
{
    if p.len() > 0 && (p[p.len() - 1] == '\r' || p[p.len() - 1] == '\n') {
        strip_all_endings(p.drop_last())
    } else {
        p
    }
}

/// The entries of section `want` among the lines `ps`, in order, given the
/// section the lines start in.
pub open spec fn read_lines(ps: Seq<Seq<char>>, want: Seq<char>, cur: Option<Seq<char>>) -> Seq<(Seq<char>, Seq<char>)>
    decreases ps.len(),
{
    if ps.len() == 0 {
        Seq::empty()
    } else {
        let l = strip_line_ending(ps[0]);
        match spec_section_name(l) {
            Some(n) => read_lines(ps.drop_first(), want, Some(n)),
            None => {
                let here: Seq<(Seq<char>, Seq<char>)> = if cur == Some(want) {
                    match spec_split_kv(l) {
                        Some(kv) => seq![kv],
                        None => Seq::empty(),
                    }
                } else {
                    Seq::empty()
                };
                here + read_lines(ps.drop_first(), want, cur)
            },
        }
    }
}

/// The `(key, value)` entries that `read_section_text` returns.
pub open spec fn spec_read_section(text: Seq<char>, section: Seq<char>) -> Seq<(Seq<char>, Seq<char>)> {
    read_lines(pieces(text), lower_seq(section), None)
}

pub open spec fn opt_view(o: Option<Vec<char>>) -> Option<Seq<char>> {
    match o {
        Some(c) => Some(c@),
        None => None,
    }
}

pub open spec fn entry_view(e: IniEntry) -> (Seq<char>, Seq<char>) {
    (e.key@, e.value@)
}

fn strip_ending(p: &Vec<char>) -> (r: Vec<char>)
    ensures
        r@ == strip_line_ending(p@),
{
    let n = p.len();
    if n > 0 && p[n - 1] == '\n' {
        if n > 1 && p[n - 2] == '\r' {
            let r = crate::text::sub_chars(p, 0, n - 2);
            assert(r@ =~= p@.drop_last().drop_last());
            r
        } else {
            let r = crate::text::sub_chars(p, 0, n - 1);
            assert(r@ =~= p@.drop_last());
            r
        }
    } else {
        let r = crate::text::sub_chars(p, 0, n);
        assert(r@ =~= p@);
        r
    }
}

/// Every `key=value` entry of `[section]` (case-insensitive) in `text`, in
/// file order, keys and values trimmed.
pub fn read_section_text(text: &str, section: &str) -> (r: Vec<IniEntry>)
    ensures
        r@.map_values(|e: IniEntry| entry_view(e)) == spec_read_section(text@, section@),
{
    let chars = chars_of(text);
    let want = lower_chars(&chars_of(section));
    let ps = split_pieces(&chars);
    let ghost all = ps@.map_values(|p: Vec<char>| p@);
    let mut current: Option<Vec<char>> = None;
    let mut out: Vec<IniEntry> = Vec::new();
    let mut i: usize = 0;
    assert(all.skip(0) =~= all);
    assert(out@.map_values(|e: IniEntry| entry_view(e)) =~= Seq::<(Seq<char>, Seq<char>)>::empty());
    while i < ps.len()
        invariant
            all == ps@.map_values(|p: Vec<char>| p@),
            all == pieces(text@),
            want@ == lower_seq(section@),
            i <= ps@.len(),
            out@.map_values(|e: IniEntry| entry_view(e)) + read_lines(all.skip(i as int), want@, opt_view(current)) == spec_read_section(text@, section@),
        decreases ps.len() - i,
    {
        let line = strip_ending(&ps[i]);
        proof {
            assert(all.skip(i as int)[0] == ps@[i as int]@);
            assert(all.skip(i as int).drop_first() =~= all.skip(i + 1));
        }
        let ghost cur_view: Option<Seq<char>> = opt_view(current);
        match section_name(&line) {
            Some(n) => {
                current = Some(n);
            },
            None => {
                let in_section = match &current {
                    Some(c) => chars_eq(c, &want),
                    None => false,
                };
                assert(in_section == (cur_view == Some(want@)));
                if in_section {
                    match split_kv(&line) {
                        Some(kv) => {
                            let ghost prev = out@;
                            let e = IniEntry { key: string_from_chars(kv.0.as_slice()), value: string_from_chars(kv.1.as_slice()) };
                            out.push(e);
                            assert(out@.map_values(|e: IniEntry| entry_view(e)) =~= prev.map_values(|e: IniEntry| entry_view(e)) + seq![(kv.0@, kv.1@)]);
                        },
                        None => {},
                    }
                }
            },
        }
        i = i + 1;
    }
    assert(all.skip(i as int) =~= Seq::<Seq<char>>::empty());
    assert(out@.map_values(|e: IniEntry| entry_view(e)) + Seq::<(Seq<char>, Seq<char>)>::empty() =~= out@.map_values(|e: IniEntry| entry_view(e)));
    out
}

/// The value the last update with key `k` sets, if any (later updates
/// override earlier ones).
pub open spec fn lookup(ups: Seq<(Seq<char>, Seq<char>)>, k: Seq<char>) -> Option<Seq<char>>
    decreases ups.len(),
{
    if ups.len() == 0 {
        None
    } else if ups[ups.len() - 1].0 == k {
        Some(ups[ups.len() - 1].1)
    } else {
        lookup(ups.drop_last(), k)
    }
}

/// The line ending of a piece: its trailing run of `\r` and `\n`
/// characters, what `strip_all_endings` removes.
pub open spec fn ending_of(p: Seq<char>) -> Seq<char>
    decreases p.len(),
{
    if p.len() > 0 && (p[p.len() - 1] == '\r' || p[p.len() - 1] == '\n') {
        ending_of(p.drop_last()).push(p[p.len() - 1])
    } else {
        Seq::empty()
    }
}

/// A piece is its content followed by its line ending.
pub proof fn lemma_content_and_ending(p: Seq<char>)
    ensures
        strip_all_endings(p) + ending_of(p) == p,
    decreases p.len(),
{
    if p.len() > 0 && (p[p.len() - 1] == '\r' || p[p.len() - 1] == '\n') {
        lemma_content_and_ending(p.drop_last());
        assert(strip_all_endings(p) + ending_of(p) =~= (strip_all_endings(p.drop_last()) + ending_of(p.drop_last())).push(
            p[p.len() - 1],
        ));
        assert(p.drop_last().push(p[p.len() - 1]) =~= p);
    } else {
        assert(p + Seq::<char>::empty() =~= p);
    }
}

/// The output pieces of a rewrite: every piece as it was, except that a
/// `key=value` line of section `want` whose key has an update becomes
/// `key=new_value`, followed by the line's own ending.
pub open spec fn rewrite_lines(
    ps: Seq<Seq<char>>,
    want: Seq<char>,
    ups: Seq<(Seq<char>, Seq<char>)>,
    cur: Option<Seq<char>>,
) -> Seq<Seq<char>>
    decreases ps.len(),
{
    if ps.len() == 0 {
        Seq::empty()
    } else {
        let l = strip_all_endings(ps[0]);
        match spec_section_name(l) {
            Some(n) => seq![ps[0]] + rewrite_lines(ps.drop_first(), want, ups, Some(n)),
            None => {
                let out = if cur == Some(want) {
                    match spec_split_kv(l) {
                        Some(kv) => match lookup(ups, kv.0) {
                            Some(v) => kv.0 + seq!['='] + v + ending_of(ps[0]),
                            None => ps[0],
                        },
                        None => ps[0],
                    }
                } else {
                    ps[0]
                };
                seq![out] + rewrite_lines(ps.drop_first(), want, ups, cur)
            },
        }
    }
}

/// The pieces written one after another.
pub open spec fn concat(ls: Seq<Seq<char>>) -> Seq<char>
    decreases ls.len(),
{
    if ls.len() == 0 {
        Seq::empty()
    } else {
        ls[0] + concat(ls.drop_first())
    }
}

proof fn lemma_concat_push(ls: Seq<Seq<char>>, x: Seq<char>)
    ensures
        concat(ls.push(x)) == concat(ls) + x,
    decreases ls.len(),
{
    if ls.len() == 0 {
        assert(ls.push(x).drop_first() =~= Seq::<Seq<char>>::empty());
        assert(concat(Seq::<Seq<char>>::empty()) == Seq::<char>::empty());
        assert(concat(ls) == Seq::<char>::empty());
        assert(concat(ls.push(x)) =~= x);
    } else {
        assert(ls.push(x).drop_first() =~= ls.drop_first().push(x));
        lemma_concat_push(ls.drop_first(), x);
        assert(concat(ls.push(x)) =~= concat(ls) + x);
    }
}

proof fn lemma_concat_pieces_acc(s: Seq<char>, i: int, cur: int)
    requires
        0 <= cur <= i <= s.len(),
        forall|k: int| cur <= k < i ==> s[k] != '\n',
    ensures
        concat(pieces_acc(s, i, cur)) == s.subrange(cur, s.len() as int),
    decreases s.len() + 1 - i,
{
    if i >= s.len() {
        if cur < s.len() {
            assert(seq![s.subrange(cur, s.len() as int)].drop_first() =~= Seq::<Seq<char>>::empty());
            assert(concat(Seq::<Seq<char>>::empty()) == Seq::<char>::empty());
            assert(concat(pieces_acc(s, i, cur)) =~= s.subrange(cur, s.len() as int));
        } else {
            assert(s.subrange(cur, s.len() as int) =~= Seq::<char>::empty());
        }
    } else if s[i] == '\n' {
        lemma_concat_pieces_acc(s, i + 1, i + 1);
        let ls = seq![s.subrange(cur, i + 1)] + pieces_acc(s, i + 1, i + 1);
        assert(ls.drop_first() =~= pieces_acc(s, i + 1, i + 1));
        assert(concat(ls) =~= s.subrange(cur, s.len() as int));
    } else {
        lemma_concat_pieces_acc(s, i + 1, cur);
    }
}

/// The pieces of a text, written one after another, are the text.
pub proof fn lemma_concat_pieces(s: Seq<char>)
    ensures
        concat(pieces(s)) == s,
{
    lemma_concat_pieces_acc(s, 0, 0);
    assert(s.subrange(0, s.len() as int) =~= s);
}

/// What `rewrite_section` returns.
pub open spec fn spec_rewrite(text: Seq<char>, section: Seq<char>, ups: Seq<(Seq<char>, Seq<char>)>) -> Seq<char> {
    concat(rewrite_lines(pieces(text), lower_seq(section), ups, None))
}

/// Split a piece into its content and its line ending.
fn split_ending(p: &Vec<char>) -> (r: (Vec<char>, Vec<char>))
    ensures
        r.0@ == strip_all_endings(p@),
        r.1@ == ending_of(p@),
{
    let mut n = p.len();
    assert(p@.subrange(0, n as int) =~= p@);
    assert(p@.subrange(n as int, p@.len() as int) =~= Seq::<char>::empty());
    while n > 0 && (p[n - 1] == '\r' || p[n - 1] == '\n')
        invariant
            n <= p@.len(),
            strip_all_endings(p@.subrange(0, n as int)) == strip_all_endings(p@),
            ending_of(p@) == ending_of(p@.subrange(0, n as int)) + p@.subrange(n as int, p@.len() as int),
        decreases n,
    {
        let ghost q = p@.subrange(0, n as int);
        assert(q.drop_last() =~= p@.subrange(0, n - 1));
        assert(ending_of(q) == ending_of(q.drop_last()).push(q[q.len() - 1]));
        assert(ending_of(p@.subrange(0, n - 1)) + p@.subrange(n - 1, p@.len() as int) =~= ending_of(
            p@.subrange(0, n - 1),
        ).push(q[q.len() - 1]) + p@.subrange(n as int, p@.len() as int));
        n = n - 1;
    }
    assert(ending_of(p@.subrange(0, n as int)) =~= Seq::<char>::empty());
    assert(Seq::<char>::empty() + p@.subrange(n as int, p@.len() as int) =~= p@.subrange(n as int, p@.len() as int));
    (crate::text::sub_chars(p, 0, n), crate::text::sub_chars(p, n, p.len()))
}

/// Rewrite the text of an INI file, replacing the value of each `updates` key
/// found inside `[section]`. Keys not present are ignored; every other byte of
/// the file is kept, and a rewritten line keeps its own line ending, so the
/// newline style and the trailing newline are preserved.
pub fn rewrite_section(original: &str, section: &str, updates: &[IniEntry]) -> (r: String)
    ensures
        r@ == spec_rewrite(original@, section@, updates@.map_values(|e: IniEntry| entry_view(e))),
{
    let text = chars_of(original);
    let want = lower_chars(&chars_of(section));
    let ghost ups_view = updates@.map_values(|e: IniEntry| entry_view(e));
    let mut keys: Vec<Vec<char>> = Vec::new();
    let mut vals: Vec<Vec<char>> = Vec::new();
    let mut u: usize = 0;
    while u < updates.len()
        invariant
            u <= updates@.len(),
            ups_view == updates@.map_values(|e: IniEntry| entry_view(e)),
            keys@.len() == u,
            vals@.len() == u,
            forall|k: int| 0 <= k < u ==> (#[trigger] keys@[k])@ == ups_view[k].0 && vals@[k]@ == ups_view[k].1,
        decreases updates.len() - u,
    {
        let kc = chars_of(updates[u].key.as_str());
        let vc = chars_of(updates[u].value.as_str());
        assert(kc@ == ups_view[u as int].0 && vc@ == ups_view[u as int].1);
        keys.push(kc);
        vals.push(vc);
        u = u + 1;
    }
    let ps = split_pieces(&text);
    let ghost all = ps@.map_values(|p: Vec<char>| p@);
    let mut current: Option<Vec<char>> = None;
    let mut lines_out: Vec<Vec<char>> = Vec::new();
    let mut i: usize = 0;
    assert(all.skip(0) =~= all);
    assert(lines_out@.map_values(|p: Vec<char>| p@) =~= Seq::<Seq<char>>::empty());
    while i < ps.len()
        invariant
            all == ps@.map_values(|p: Vec<char>| p@),
            all == pieces(original@),
            want@ == lower_seq(section@),
            keys@.len() == ups_view.len(),
            vals@.len() == ups_view.len(),
            forall|k: int| 0 <= k < ups_view.len() ==> (#[trigger] keys@[k])@ == ups_view[k].0 && vals@[k]@ == ups_view[k].1,
            i <= ps@.len(),
            lines_out@.len() == i,
            lines_out@.map_values(|p: Vec<char>| p@) + rewrite_lines(all.skip(i as int), want@, ups_view, opt_view(current))
                == rewrite_lines(all, want@, ups_view, None),
        decreases ps.len() - i,
    {
        let (line, ending) = split_ending(&ps[i]);
        proof {
            lemma_content_and_ending(ps@[i as int]@);
        }
        proof {
            assert(all.skip(i as int)[0] == ps@[i as int]@);
            assert(all.skip(i as int).drop_first() =~= all.skip(i + 1));
        }
        let ghost cur_view = opt_view(current);
        let ghost prev = lines_out@;
        match section_name(&line) {
            Some(n) => {
                current = Some(n);
                let whole = crate::text::sub_chars(&ps[i], 0, ps[i].len());
                assert(ps@[i as int]@.subrange(0, ps@[i as int]@.len() as int) =~= ps@[i as int]@);
                let ghost lv = whole@;
                lines_out.push(whole);
                assert(lines_out@.map_values(|p: Vec<char>| p@) =~= prev.map_values(|p: Vec<char>| p@) + seq![lv]);
            },
            None => {
                let in_section = match &current {
                    Some(cc) => chars_eq(cc, &want),
                    None => false,
                };
                assert(in_section == (cur_view == Some(want@)));
                let mut out_line = crate::text::sub_chars(&ps[i], 0, ps[i].len());
                assert(ps@[i as int]@.subrange(0, ps@[i as int]@.len() as int) =~= ps@[i as int]@);
                if in_section {
                    match split_kv(&line) {
                        Some(kv) => {
                            match find_update(&keys, &vals, &kv.0, Ghost(ups_view)) {
                                Some(v) => {
                                    let mut nl_line = kv.0;
                                    nl_line.push('=');
                                    let mut w: usize = 0;
                                    let ghost base = nl_line@;
                                    while w < v.len()
                                        invariant
                                            w <= v@.len(),
                                            nl_line@ == base + v@.take(w as int),
                                        decreases v.len() - w,
                                    {
                                        nl_line.push(v[w]);
                                        assert(v@.take(w + 1) =~= v@.take(w as int).push(v@[w as int]));
                                        w = w + 1;
                                    }
                                    assert(v@.take(v@.len() as int) =~= v@);
                                    append_chars(&mut nl_line, &ending);
                                    assert(nl_line@ =~= kv.0@ + seq!['='] + v@ + ending@);
                                    out_line = nl_line;
                                },
                                None => {},
                            }
                        },
                        None => {},
                    }
                }
                lines_out.push(out_line);
                assert(lines_out@.map_values(|p: Vec<char>| p@) =~= prev.map_values(|p: Vec<char>| p@) + seq![lines_out@[i as int]@]);
            },
        }
        i = i + 1;
    }
    assert(all.skip(i as int) =~= Seq::<Seq<char>>::empty());
    let ghost outs = lines_out@.map_values(|p: Vec<char>| p@);
    assert(outs + Seq::<Seq<char>>::empty() =~= outs);
    // the pieces, one after another
    let mut result: Vec<char> = Vec::new();
    let mut k: usize = 0;
    while k < lines_out.len()
        invariant
            outs == lines_out@.map_values(|p: Vec<char>| p@),
            k <= lines_out@.len(),
            result@ == concat(outs.take(k as int)),
        decreases lines_out.len() - k,
    {
        append_chars(&mut result, &lines_out[k]);
        proof {
            assert(outs.take(k + 1) =~= outs.take(k as int).push(outs[k as int]));
            lemma_concat_push(outs.take(k as int), outs[k as int]);
        }
        k = k + 1;
    }
    assert(outs.take(lines_out.len() as int) =~= outs);
    string_from_chars(result.as_slice())
}

/// Append the characters of `src` to `dst`.
fn append_chars(dst: &mut Vec<char>, src: &Vec<char>)
    ensures
        final(dst)@ == old(dst)@ + src@,
{
    let mut i: usize = 0;
    let ghost start = dst@;
    while i < src.len()
        invariant
            i <= src@.len(),
            dst@ == start + src@.take(i as int),
        decreases src.len() - i,
    {
        dst.push(src[i]);
        assert(src@.take(i + 1) =~= src@.take(i as int).push(src@[i as int]));
        i = i + 1;
    }
    assert(src@.take(src@.len() as int) =~= src@);
}

/// The value of the last update whose key is `k`.
fn find_update(keys: &Vec<Vec<char>>, vals: &Vec<Vec<char>>, k: &Vec<char>, Ghost(ups): Ghost<Seq<(Seq<char>, Seq<char>)>>) -> (r: Option<Vec<char>>)
    requires
        keys@.len() == ups.len(),
        vals@.len() == ups.len(),
        forall|j: int| 0 <= j < ups.len() ==> (#[trigger] keys@[j])@ == ups[j].0 && vals@[j]@ == ups[j].1,
    ensures
        match lookup(ups, k@) {
            Some(v) => r matches Some(w) && w@ == v,
            None => r is None,
        },
{
    let mut j = keys.len();
    assert(ups.take(j as int) =~= ups);
    while j > 0
        invariant
            j <= keys@.len(),
            keys@.len() == ups.len(),
            vals@.len() == ups.len(),
            forall|x: int| 0 <= x < ups.len() ==> (#[trigger] keys@[x])@ == ups[x].0 && vals@[x]@ == ups[x].1,
            lookup(ups.take(j as int), k@) == lookup(ups, k@),
        decreases j,
    {
        let ghost t = ups.take(j as int);
        assert(t.drop_last() =~= ups.take(j - 1));
        if chars_eq(&keys[j - 1], k) {
            let v = crate::text::sub_chars(&vals[j - 1], 0, vals[j - 1].len());
            assert(vals@[j - 1]@.subrange(0, vals@[j - 1]@.len() as int) =~= vals@[j - 1]@);
            return Some(v);
        }
        j = j - 1;
    }
    None
}

/// The section that the lines after the first `k` of `ps` lie in, starting
/// in `cur`.
pub open spec fn section_after(ps: Seq<Seq<char>>, k: int, cur: Option<Seq<char>>) -> Option<Seq<char>>
    decreases k,
{
    if k <= 0 || ps.len() == 0 {
        cur
    } else {
        let next = match spec_section_name(strip_all_endings(ps[0])) {
            Some(n) => Some(n),
            None => cur,
        };
        section_after(ps.drop_first(), k - 1, next)
    }
}

/// A rewrite keeps the number of lines, and with no updates it changes no
/// line.
pub proof fn lemma_rewrite_keeps_lines(
    ps: Seq<Seq<char>>,
    want: Seq<char>,
    ups: Seq<(Seq<char>, Seq<char>)>,
    cur: Option<Seq<char>>,
)
    ensures
        rewrite_lines(ps, want, ups, cur).len() == ps.len(),
        ups.len() == 0 ==> rewrite_lines(ps, want, ups, cur) == ps,
    decreases ps.len(),
{
    if ps.len() > 0 {
        let l = strip_all_endings(ps[0]);
        let next = match spec_section_name(l) {
            Some(n) => Some(n),
            None => cur,
        };
        lemma_rewrite_keeps_lines(ps.drop_first(), want, ups, next);
        if ups.len() == 0 {
            assert(rewrite_lines(ps, want, ups, cur) =~= seq![ps[0]] + ps.drop_first());
            assert(seq![ps[0]] + ps.drop_first() =~= ps);
        }
    }
}

/// With no updates, the rewrite gives back the text unchanged, byte for byte.
pub proof fn lemma_rewrite_without_updates(text: Seq<char>, section: Seq<char>)
    ensures
        spec_rewrite(text, section, Seq::empty()) == text,
{
    lemma_rewrite_keeps_lines(pieces(text), lower_seq(section), Seq::empty(), None);
    lemma_concat_pieces(text);
}

/// Only targeted lines change: a line comes out different from its input
/// only when it lies in section `want`, is a `key=value` line (not a header)
/// whose key has an update, and then it reads `key=<new value>` followed by
/// the line's own ending.
pub proof fn lemma_rewrite_changes_only_targets(
    ps: Seq<Seq<char>>,
    want: Seq<char>,
    ups: Seq<(Seq<char>, Seq<char>)>,
    cur: Option<Seq<char>>,
)
    ensures
        forall|i: int|
            0 <= i < ps.len() && #[trigger] rewrite_lines(ps, want, ups, cur)[i] != ps[i] ==> (
            section_after(ps, i, cur) == Some(want)
                && spec_section_name(strip_all_endings(ps[i])) is None
                && (spec_split_kv(strip_all_endings(ps[i])) matches Some(kv) && lookup(ups, kv.0) matches Some(v)
                && rewrite_lines(ps, want, ups, cur)[i] == kv.0 + seq!['='] + v + ending_of(ps[i]))),
    decreases ps.len(),
{
    lemma_rewrite_keeps_lines(ps, want, ups, cur);
    if ps.len() > 0 {
        let l = strip_all_endings(ps[0]);
        let next = match spec_section_name(l) {
            Some(n) => Some(n),
            None => cur,
        };
        let rest = ps.drop_first();
        lemma_rewrite_changes_only_targets(rest, want, ups, next);
        let out = rewrite_lines(ps, want, ups, cur);
        assert forall|i: int|
            0 <= i < ps.len() && #[trigger] out[i] != ps[i] implies (section_after(ps, i, cur) == Some(want)
            && spec_section_name(strip_all_endings(ps[i])) is None
            && (spec_split_kv(strip_all_endings(ps[i])) matches Some(kv) && lookup(ups, kv.0) matches Some(v)
            && out[i] == kv.0 + seq!['='] + v + ending_of(ps[i]))) by {
            if i > 0 {
                assert(out[i] == rewrite_lines(rest, want, ups, next)[i - 1]);
                assert(ps[i] == rest[i - 1]);
                assert(section_after(ps, i, cur) == section_after(rest, i - 1, next));
            }
        }
    }
}

/// When no line that the rewrite would target has an update for its key,
/// the rewrite gives back the text unchanged, byte for byte.
pub proof fn lemma_rewrite_untargeted(text: Seq<char>, section: Seq<char>, ups: Seq<(Seq<char>, Seq<char>)>)
    requires
        forall|i: int|
            0 <= i < pieces(text).len() && section_after(pieces(text), i, None) == Some(lower_seq(section))
                && spec_section_name(strip_all_endings(#[trigger] pieces(text)[i])) is None ==> match spec_split_kv(
                strip_all_endings(pieces(text)[i]),
            ) {
                Some(kv) => lookup(ups, kv.0) is None,
                None => true,
            },
    ensures
        spec_rewrite(text, section, ups) == text,
{
    let ps = pieces(text);
    let want = lower_seq(section);
    lemma_rewrite_keeps_lines(ps, want, ups, None);
    lemma_rewrite_changes_only_targets(ps, want, ups, None);
    let out = rewrite_lines(ps, want, ups, None);
    assert forall|i: int| 0 <= i < ps.len() implies out[i] == ps[i] by {
        if out[i] != ps[i] {
            assert(spec_section_name(strip_all_endings(ps[i])) is None);
        }
    }
    assert(out =~= ps);
    lemma_concat_pieces(text);
}

// ---------------------------------------------------------------------------
// Reading back what a rewrite wrote

/// Every character of `w` is whitespace.
pub open spec fn all_ws(w: Seq<char>) -> bool {
    forall|k: int| 0 <= k < w.len() ==> is_ws(#[trigger] w[k])
}

/// `s` holds a character that is not whitespace.
pub open spec fn has_non_ws(s: Seq<char>) -> bool {
    exists|k: int| 0 <= k < s.len() && !is_ws(#[trigger] s[k])
}

proof fn lemma_trim_start_all_ws(s: Seq<char>)
    requires
        all_ws(s),
    ensures
        trim_start_seq(s) == Seq::<char>::empty(),
    decreases s.len(),
{
    if s.len() > 0 {
        assert(is_ws(s[0]));
        assert(all_ws(s.drop_first())) by {
            assert forall|k: int| 0 <= k < s.drop_first().len() implies is_ws(#[trigger] s.drop_first()[k]) by {
                assert(s.drop_first()[k] == s[k + 1]);
            }
        }
        lemma_trim_start_all_ws(s.drop_first());
    }
}

proof fn lemma_trim_start_concat(a: Seq<char>, b: Seq<char>)
    ensures
        has_non_ws(a) ==> trim_start_seq(a + b) == trim_start_seq(a) + b,
        !has_non_ws(a) ==> trim_start_seq(a + b) == trim_start_seq(b),
        has_non_ws(a) ==> trim_start_seq(a).len() > 0 && !is_ws(trim_start_seq(a)[0]),
        !has_non_ws(a) ==> trim_start_seq(a) == Seq::<char>::empty(),
    decreases a.len(),
{
    if a.len() == 0 {
        assert(a + b =~= b);
    } else if is_ws(a[0]) {
        let t = a.drop_first();
        assert((a + b).drop_first() =~= t + b);
        assert(has_non_ws(a) ==> has_non_ws(t)) by {
            if has_non_ws(a) {
                let k = choose|k: int| 0 <= k < a.len() && !is_ws(#[trigger] a[k]);
                assert(k > 0);
                assert(t[k - 1] == a[k]);
            }
        }
        assert(has_non_ws(t) ==> has_non_ws(a)) by {
            if has_non_ws(t) {
                let k = choose|k: int| 0 <= k < t.len() && !is_ws(#[trigger] t[k]);
                assert(a[k + 1] == t[k]);
            }
        }
        lemma_trim_start_concat(t, b);
    } else {
        assert(has_non_ws(a));
        assert((a + b)[0] == a[0]);
    }
}

/// Whitespace after the end of a text changes neither its trimmed form.
proof fn lemma_trim_ws_suffix(l: Seq<char>, w: Seq<char>)
    requires
        all_ws(w),
    ensures
        trim_seq(l + w) == trim_seq(l),
{
    lemma_trim_start_concat(l, w);
    if has_non_ws(l) {
        let t = trim_start_seq(l);
        assert forall|k: int| t.len() <= k < (t + w).len() implies is_ws(#[trigger] (t + w)[k]) by {
            assert((t + w)[k] == w[k - t.len()]);
        }
        lemma_trim_end_skip(t + w, t.len() as int);
        assert((t + w).subrange(0, t.len() as int) =~= t);
    } else {
        lemma_trim_start_all_ws(w);
    }
}

proof fn lemma_find_from_suffix(l: Seq<char>, w: Seq<char>, c: char, i: int)
    requires
        0 <= i,
        forall|k: int| 0 <= k < w.len() ==> #[trigger] w[k] != c,
    ensures
        find_from(l + w, c, i) == find_from(l, c, i),
    decreases (l + w).len() + 1 - i,
{
    let s = l + w;
    if i < s.len() {
        if i < l.len() {
            assert(s[i] == l[i]);
        } else {
            assert(s[i] == w[i - l.len()]);
        }
        if s[i] != c {
            lemma_find_from_suffix(l, w, c, i + 1);
        }
    }
}

/// Whitespace after the end of a line changes neither whether it is a
/// section header nor how it splits into key and value.
proof fn lemma_line_ws_suffix(l: Seq<char>, w: Seq<char>)
    requires
        all_ws(w),
    ensures
        spec_section_name(l + w) == spec_section_name(l),
        spec_split_kv(l + w) == spec_split_kv(l),
{
    lemma_trim_ws_suffix(l, w);
    lemma_trim_start_concat(l, w);
    assert forall|k: int| 0 <= k < w.len() implies #[trigger] w[k] != '=' by {
        assert(is_ws(w[k]));
    }
    lemma_find_from_suffix(l, w, '=', 0);
    lemma_find_from(l, '=', 0);
    if !has_non_ws(l) {
        lemma_trim_start_all_ws(w);
    }
    match find_from(l, '=', 0) {
        Some(eq) => {
            assert((l + w).subrange(0, eq) =~= l.subrange(0, eq));
            assert((l + w).subrange(eq + 1, (l + w).len() as int) =~= l.subrange(eq + 1, l.len() as int) + w);
            lemma_trim_ws_suffix(l.subrange(eq + 1, l.len() as int), w);
        },
        None => {},
    }
}

proof fn lemma_ending_chars(p: Seq<char>)
    ensures
        forall|k: int| 0 <= k < ending_of(p).len() ==> (#[trigger] ending_of(p)[k] == '\r' || ending_of(p)[k] == '\n'),
    decreases p.len(),
{
    if p.len() > 0 && (p[p.len() - 1] == '\r' || p[p.len() - 1] == '\n') {
        lemma_ending_chars(p.drop_last());
        let e = ending_of(p.drop_last());
        assert forall|k: int| 0 <= k < ending_of(p).len() implies (#[trigger] ending_of(p)[k] == '\r' || ending_of(p)[k]
            == '\n') by {
            if k < e.len() {
                assert(ending_of(p)[k] == e[k]);
            }
        }
    }
}

proof fn lemma_ending_ws(p: Seq<char>)
    ensures
        all_ws(ending_of(p)),
{
    lemma_ending_chars(p);
    assert forall|k: int| 0 <= k < ending_of(p).len() implies is_ws(#[trigger] ending_of(p)[k]) by {
        assert(ending_of(p)[k] == '\r' || ending_of(p)[k] == '\n');
    }
}

/// The line that reading sees is the content of the piece followed by
/// whitespace (what is left of its line ending).
proof fn lemma_read_line_parts(p: Seq<char>)
    ensures
        strip_line_ending(p) == strip_all_endings(p) + ending_of(strip_line_ending(p)),
        all_ws(ending_of(strip_line_ending(p))),
        spec_section_name(strip_line_ending(p)) == spec_section_name(strip_all_endings(p)),
        spec_split_kv(strip_line_ending(p)) == spec_split_kv(strip_all_endings(p)),
{
    let q = strip_line_ending(p);
    assert(strip_all_endings(q) == strip_all_endings(p)) by {
        if p.len() > 0 && p[p.len() - 1] == '\n' {
            let q1 = p.drop_last();
            assert(strip_all_endings(p) == strip_all_endings(q1));
            if q1.len() > 0 && q1[q1.len() - 1] == '\r' {
                assert(strip_all_endings(q1) == strip_all_endings(q1.drop_last()));
            }
        }
    }
    lemma_content_and_ending(q);
    lemma_ending_ws(q);
    lemma_line_ws_suffix(strip_all_endings(p), ending_of(q));
}

proof fn lemma_strip_all_endings_append(x: Seq<char>, e: Seq<char>)
    requires
        forall|k: int| 0 <= k < e.len() ==> (#[trigger] e[k] == '\r' || e[k] == '\n'),
    ensures
        strip_all_endings(x + e) == strip_all_endings(x),
    decreases e.len(),
{
    if e.len() == 0 {
        assert(x + e =~= x);
    } else {
        let y = x + e;
        assert(y[y.len() - 1] == e[e.len() - 1]);
        assert(y.drop_last() =~= x + e.drop_last());
        lemma_strip_all_endings_append(x, e.drop_last());
    }
}

proof fn lemma_no_char_trim_start(s: Seq<char>, c: char)
    requires
        forall|k: int| 0 <= k < s.len() ==> #[trigger] s[k] != c,
    ensures
        forall|k: int| 0 <= k < trim_start_seq(s).len() ==> #[trigger] trim_start_seq(s)[k] != c,
    decreases s.len(),
{
    if s.len() > 0 && is_ws(s[0]) {
        let a = s.drop_first();
        assert forall|k: int| 0 <= k < a.len() implies #[trigger] a[k] != c by {
            assert(a[k] == s[k + 1]);
        }
        lemma_no_char_trim_start(a, c);
        assert(trim_start_seq(s) == trim_start_seq(a));
    }
}

proof fn lemma_no_char_trim_end(t: Seq<char>, c: char)
    requires
        forall|k: int| 0 <= k < t.len() ==> #[trigger] t[k] != c,
    ensures
        forall|k: int| 0 <= k < trim_end_seq(t).len() ==> #[trigger] trim_end_seq(t)[k] != c,
    decreases t.len(),
{
    if t.len() > 0 && is_ws(t.last()) {
        let b = t.drop_last();
        assert forall|k: int| 0 <= k < b.len() implies #[trigger] b[k] != c by {
            assert(b[k] == t[k]);
        }
        lemma_no_char_trim_end(b, c);
        assert(trim_end_seq(t) == trim_end_seq(b));
    }
}

proof fn lemma_no_char_trim(s: Seq<char>, c: char)
    requires
        forall|k: int| 0 <= k < s.len() ==> #[trigger] s[k] != c,
    ensures
        forall|k: int| 0 <= k < trim_seq(s).len() ==> #[trigger] trim_seq(s)[k] != c,
{
    lemma_no_char_trim_start(s, c);
    lemma_no_char_trim_end(trim_start_seq(s), c);
}

/// Trimming the end keeps a first character that is not whitespace.
proof fn lemma_trim_end_keeps_first(u: Seq<char>)
    requires
        u.len() > 0,
        !is_ws(u[0]),
    ensures
        trim_end_seq(u).len() > 0,
        trim_end_seq(u)[0] == u[0],
        !is_ws(trim_end_seq(u).last()),
    decreases u.len(),
{
    if is_ws(u.last()) {
        assert(u.len() > 1);
        assert(u.drop_last()[0] == u[0]);
        lemma_trim_end_keeps_first(u.drop_last());
    }
}

/// A trimmed text that is not empty starts and ends with non-whitespace,
/// and the text held non-whitespace.
proof fn lemma_trim_ends(s: Seq<char>)
    ensures
        trim_seq(s).len() > 0 ==> has_non_ws(s) && !is_ws(trim_seq(s)[0]) && !is_ws(trim_seq(s).last())
            && trim_seq(s)[0] == trim_start_seq(s)[0],
{
    lemma_trim_start_concat(s, Seq::empty());
    if has_non_ws(s) {
        lemma_trim_end_keeps_first(trim_start_seq(s));
    } else {
        assert(trim_end_seq(Seq::<char>::empty()) == Seq::<char>::empty());
    }
}

proof fn lemma_find_first(s: Seq<char>, c: char, i: int, j: int)
    requires
        0 <= i <= j < s.len(),
        s[j] == c,
        forall|k: int| i <= k < j ==> #[trigger] s[k] != c,
    ensures
        find_from(s, c, i) == Some(j),
    decreases j - i,
{
    if i < j {
        lemma_find_first(s, c, i + 1, j);
    }
}

proof fn lemma_find_none_before(s: Seq<char>, c: char, i: int, j: int)
    requires
        0 <= i,
        find_from(s, c, i) == Some(j),
    ensures
        forall|k: int| i <= k < j ==> #[trigger] s[k] != c,
    decreases s.len() + 1 - i,
{
    if 0 <= i < s.len() && s[i] != c {
        lemma_find_none_before(s, c, i + 1, j);
    }
}

/// The line a rewrite writes for a key: `key=value` splits back into that
/// key and value, and is no section header, when the key came from a line
/// that split, does not start with `[`, and the value has no whitespace at
/// either end.
proof fn lemma_written_line(l: Seq<char>, v: Seq<char>)
    requires
        spec_split_kv(l) is Some,
        spec_split_kv(l)->Some_0.0[0] != '[',
        trim_seq(v) == v,
    ensures
        ({
            let k = spec_split_kv(l)->Some_0.0;
            let x = k + seq!['='] + v;
            &&& spec_split_kv(x) == Some((k, v))
            &&& spec_section_name(x) is None
            &&& !is_ws(x[0]) && !is_ws(x.last())
        }),
{
    let kv = spec_split_kv(l)->Some_0;
    let k = kv.0;
    let eq = find_from(l, '=', 0)->Some_0;
    lemma_find_from(l, '=', 0);
    let a = l.subrange(0, eq);
    let b = l.subrange(eq, l.len() as int);
    assert(k == trim_seq(a));
    lemma_trim_ends(a);
    lemma_trim_start_concat(a, b);
    assert(a + b =~= l);
    lemma_find_none_before(l, '=', 0, eq);
    assert forall|q: int| 0 <= q < a.len() implies #[trigger] a[q] != '=' by {
        assert(a[q] == l[q]);
    }
    lemma_no_char_trim(a, '=');
    // k starts with the first non-whitespace character of the line
    assert(trim_start_seq(l)[0] == trim_start_seq(a)[0]);
    assert(k[0] != ';' && k[0] != '#');
    let x = k + seq!['='] + v;
    assert(x[0] == k[0]);
    assert(trim_start_seq(x) == x);
    assert(x[k.len() as int] == '=');
    assert forall|q: int| 0 <= q < k.len() implies #[trigger] x[q] != '=' by {
        assert(x[q] == k[q]);
    }
    lemma_find_first(x, '=', 0, k.len() as int);
    assert(x.subrange(0, k.len() as int) =~= k);
    assert(trim_start_seq(k) == k);
    assert(trim_end_seq(k) == k);
    assert(x.subrange(k.len() as int + 1, x.len() as int) =~= v);
    // the last character
    if v.len() > 0 {
        lemma_trim_ends(v);
        assert(x.last() == v.last());
    } else {
        assert(x.last() == '=');
    }
    lemma_trim_end_keeps_first(x);
}

/// A line piece: not empty, with a `\n` at most at its end.
pub open spec fn piece_ok(p: Seq<char>) -> bool {
    p.len() > 0 && forall|k: int| 0 <= k < p.len() - 1 ==> #[trigger] p[k] != '\n'
}

/// Pieces as `pieces` makes them: each a line piece, every one but the last
/// ending with `\n`.
pub open spec fn pieces_shaped(ps: Seq<Seq<char>>) -> bool {
    forall|i: int| 0 <= i < ps.len() ==> piece_ok(#[trigger] ps[i]) && (i + 1 < ps.len() ==> ps[i].last() == '\n')
}

proof fn lemma_pieces_acc_shaped(s: Seq<char>, i: int, cur: int)
    requires
        0 <= cur <= i <= s.len(),
        forall|k: int| cur <= k < i ==> #[trigger] s[k] != '\n',
    ensures
        pieces_shaped(pieces_acc(s, i, cur)),
    decreases s.len() + 1 - i,
{
    if i >= s.len() {
        if cur < s.len() {
            let x = s.subrange(cur, s.len() as int);
            assert forall|k: int| 0 <= k < x.len() - 1 implies #[trigger] x[k] != '\n' by {
                assert(x[k] == s[cur + k]);
            }
            assert(pieces_acc(s, i, cur) == seq![x]);
        }
    } else if s[i] == '\n' {
        lemma_pieces_acc_shaped(s, i + 1, i + 1);
        let x = s.subrange(cur, i + 1);
        let rest = pieces_acc(s, i + 1, i + 1);
        assert forall|k: int| 0 <= k < x.len() - 1 implies #[trigger] x[k] != '\n' by {
            assert(x[k] == s[cur + k]);
        }
        assert(x.last() == '\n');
        let all = seq![x] + rest;
        assert forall|j: int| 0 <= j < all.len() implies piece_ok(#[trigger] all[j]) && (j + 1 < all.len() ==> all[j].last()
            == '\n') by {
            if j > 0 {
                assert(all[j] == rest[j - 1]);
            }
        }
    } else {
        lemma_pieces_acc_shaped(s, i + 1, cur);
    }
}

proof fn lemma_pieces_acc_scan(s: Seq<char>, i: int, cur: int, k: int)
    requires
        0 <= cur <= i <= k < s.len(),
        s[k] == '\n',
        forall|q: int| i <= q < k ==> #[trigger] s[q] != '\n',
    ensures
        pieces_acc(s, i, cur) == seq![s.subrange(cur, k + 1)] + pieces_acc(s, k + 1, k + 1),
    decreases k - i,
{
    if i < k {
        lemma_pieces_acc_scan(s, i + 1, cur, k);
    }
}

proof fn lemma_pieces_acc_tail(s: Seq<char>, i: int, cur: int)
    requires
        0 <= cur <= i <= s.len(),
        forall|q: int| i <= q < s.len() ==> #[trigger] s[q] != '\n',
    ensures
        pieces_acc(s, i, cur) == (if cur < s.len() { seq![s.subrange(cur, s.len() as int)] } else { Seq::empty() }),
    decreases s.len() + 1 - i,
{
    if i < s.len() {
        lemma_pieces_acc_tail(s, i + 1, cur);
    }
}

proof fn lemma_pieces_acc_shift(x: Seq<char>, r: Seq<char>, i: int, c: int)
    requires
        0 <= c <= i <= r.len(),
    ensures
        pieces_acc(x + r, x.len() + i, x.len() + c) == pieces_acc(r, i, c),
    decreases r.len() + 1 - i,
{
    let s = x + r;
    if i < r.len() {
        assert(s[x.len() + i] == r[i]);
        if r[i] == '\n' {
            lemma_pieces_acc_shift(x, r, i + 1, i + 1);
            assert(s.subrange(x.len() + c, x.len() + i + 1) =~= r.subrange(c, i + 1));
        } else {
            lemma_pieces_acc_shift(x, r, i + 1, c);
        }
    } else {
        assert(s.subrange(x.len() + c, s.len() as int) =~= r.subrange(c, r.len() as int));
    }
}

/// Writing shaped pieces one after another and splitting the text again
/// gives the pieces back.
proof fn lemma_pieces_of_concat(outs: Seq<Seq<char>>)
    requires
        pieces_shaped(outs),
    ensures
        pieces(concat(outs)) == outs,
    decreases outs.len(),
{
    if outs.len() == 0 {
        assert(pieces(Seq::<char>::empty()) =~= Seq::<Seq<char>>::empty());
    } else {
        let x = outs[0];
        let rest = outs.drop_first();
        assert(piece_ok(x));
        assert(pieces_shaped(rest)) by {
            assert forall|j: int| 0 <= j < rest.len() implies piece_ok(#[trigger] rest[j]) && (j + 1 < rest.len()
                ==> rest[j].last() == '\n') by {
                assert(rest[j] == outs[j + 1]);
            }
        }
        lemma_pieces_of_concat(rest);
        let r = concat(rest);
        let s = x + r;
        assert(concat(outs) == s);
        if x.last() == '\n' {
            assert forall|q: int| 0 <= q < x.len() - 1 implies #[trigger] s[q] != '\n' by {
                assert(s[q] == x[q]);
            }
            lemma_pieces_acc_scan(s, 0, 0, x.len() - 1);
            assert(s.subrange(0, x.len() as int) =~= x);
            lemma_pieces_acc_shift(x, r, 0, 0);
            assert(outs =~= seq![x] + rest);
        } else {
            assert(rest.len() == 0);
            assert(concat(rest) == Seq::<char>::empty());
            assert(s =~= x);
            assert forall|q: int| 0 <= q < s.len() implies #[trigger] s[q] != '\n' by {
                assert(s[q] == x[q]);
            }
            lemma_pieces_acc_tail(s, 0, 0);
            assert(s.subrange(0, s.len() as int) =~= x);
            assert(outs =~= seq![x]);
        }
    }
}

/// `v` holds no `\n`.
pub open spec fn no_newline(v: Seq<char>) -> bool {
    forall|k: int| 0 <= k < v.len() ==> #[trigger] v[k] != '\n'
}

/// Updates that a rewrite can write and a read gives back: every value is
/// one line with no whitespace at either end, and no key starts with `[`.
pub open spec fn writable_updates(ups: Seq<(Seq<char>, Seq<char>)>) -> bool {
    forall|j: int|
        0 <= j < ups.len() ==> trim_seq((#[trigger] ups[j]).1) == ups[j].1 && no_newline(ups[j].1) && (ups[j].0.len() > 0
            ==> ups[j].0[0] != '[')
}

/// Entries with the values that `ups` sets for their keys.
pub open spec fn updated_entries(es: Seq<(Seq<char>, Seq<char>)>, ups: Seq<(Seq<char>, Seq<char>)>) -> Seq<(Seq<char>, Seq<char>)> {
    es.map_values(
        |e: (Seq<char>, Seq<char>)|
            (
                e.0,
                match lookup(ups, e.0) {
                    Some(v) => v,
                    None => e.1,
                },
            ),
    )
}

proof fn lemma_lookup_writable(ups: Seq<(Seq<char>, Seq<char>)>, k: Seq<char>)
    requires
        writable_updates(ups),
    ensures
        lookup(ups, k) matches Some(v) ==> trim_seq(v) == v && no_newline(v) && (k.len() > 0 ==> k[0] != '['),
    decreases ups.len(),
{
    if ups.len() > 0 && ups[ups.len() - 1].0 != k {
        let d = ups.drop_last();
        assert forall|j: int| 0 <= j < d.len() implies trim_seq((#[trigger] d[j]).1) == d[j].1 && no_newline(d[j].1) && (
        d[j].0.len() > 0 ==> d[j].0[0] != '[') by {
            assert(d[j] == ups[j]);
        }
        lemma_lookup_writable(d, k);
    } else if ups.len() > 0 {
        assert(trim_seq((ups[ups.len() - 1]).1) == ups[ups.len() - 1].1);
    }
}

/// A piece's content holds no `\n`; its ending holds one at most at its
/// end, and ends with `\n` exactly when the piece does.
proof fn lemma_piece_parts(p: Seq<char>)
    requires
        piece_ok(p),
    ensures
        no_newline(strip_all_endings(p)),
        forall|k: int| 0 <= k < ending_of(p).len() - 1 ==> #[trigger] ending_of(p)[k] != '\n',
        ending_of(p).len() > 0 ==> ending_of(p).last() == p.last(),
        ending_of(p).len() == 0 ==> p.last() != '\n' && p.last() != '\r',
{
    lemma_content_and_ending(p);
    let l = strip_all_endings(p);
    let e = ending_of(p);
    if p.last() == '\n' || p.last() == '\r' {
        assert(e.len() > 0);
    }
    assert forall|k: int| 0 <= k < l.len() implies #[trigger] l[k] != '\n' by {
        assert(l[k] == p[k]);
        if e.len() == 0 {
            assert(p.last() != '\n');
        }
    }
    assert forall|k: int| 0 <= k < e.len() - 1 implies #[trigger] e[k] != '\n' by {
        assert(e[k] == p[l.len() + k]);
    }
    if e.len() > 0 {
        assert(e.last() == p[p.len() - 1]);
    }
}

/// What the rewrite writes for a targeted line reads back as its key and
/// new value, and is no section header.
proof fn lemma_targeted_out(p: Seq<char>, v: Seq<char>)
    requires
        spec_split_kv(strip_all_endings(p)) is Some,
        spec_split_kv(strip_all_endings(p))->Some_0.0[0] != '[',
        trim_seq(v) == v,
    ensures
        ({
            let k = spec_split_kv(strip_all_endings(p))->Some_0.0;
            let out = k + seq!['='] + v + ending_of(p);
            &&& spec_section_name(strip_line_ending(out)) is None
            &&& spec_split_kv(strip_line_ending(out)) == Some((k, v))
            &&& !is_ws((k + seq!['='] + v).last())
        }),
{
    let l = strip_all_endings(p);
    let k = spec_split_kv(l)->Some_0.0;
    let x = k + seq!['='] + v;
    let out = x + ending_of(p);
    lemma_written_line(l, v);
    lemma_read_line_parts(out);
    lemma_ending_chars(p);
    lemma_strip_all_endings_append(x, ending_of(p));
    assert(x.last() != '\r' && x.last() != '\n');
    assert(strip_all_endings(x) == x);
}

proof fn lemma_read_rewrite_lines(
    ps: Seq<Seq<char>>,
    want: Seq<char>,
    ups: Seq<(Seq<char>, Seq<char>)>,
    cur: Option<Seq<char>>,
)
    requires
        writable_updates(ups),
    ensures
        read_lines(rewrite_lines(ps, want, ups, cur), want, cur) == updated_entries(read_lines(ps, want, cur), ups),
    decreases ps.len(),
{
    if ps.len() == 0 {
        assert(updated_entries(Seq::empty(), ups) =~= Seq::<(Seq<char>, Seq<char>)>::empty());
    } else {
        let p = ps[0];
        let l = strip_all_endings(p);
        let rest = ps.drop_first();
        lemma_read_line_parts(p);
        let outs = rewrite_lines(ps, want, ups, cur);
        match spec_section_name(l) {
            Some(n) => {
                lemma_read_rewrite_lines(rest, want, ups, Some(n));
                assert(outs == seq![p] + rewrite_lines(rest, want, ups, Some(n)));
                assert(outs.drop_first() =~= rewrite_lines(rest, want, ups, Some(n)));
            },
            None => {
                lemma_read_rewrite_lines(rest, want, ups, cur);
                let out = outs[0];
                assert(outs.drop_first() =~= rewrite_lines(rest, want, ups, cur));
                let here: Seq<(Seq<char>, Seq<char>)> = if cur == Some(want) {
                    match spec_split_kv(strip_line_ending(p)) {
                        Some(kv) => seq![kv],
                        None => Seq::empty(),
                    }
                } else {
                    Seq::empty()
                };
                let tail = read_lines(rest, want, cur);
                assert(read_lines(ps, want, cur) == here + tail);
                let targeted = cur == Some(want) && spec_split_kv(l) is Some && lookup(ups, spec_split_kv(l)->Some_0.0) is Some;
                if targeted {
                    let kv = spec_split_kv(l)->Some_0;
                    let v = lookup(ups, kv.0)->Some_0;
                    lemma_lookup_writable(ups, kv.0);
                    lemma_trim_ends(l.subrange(0, find_from(l, '=', 0)->Some_0));
                    lemma_targeted_out(p, v);
                    assert(out == kv.0 + seq!['='] + v + ending_of(p));
                    assert(read_lines(outs, want, cur) == seq![(kv.0, v)] + read_lines(outs.drop_first(), want, cur));
                    assert(updated_entries(here + tail, ups) =~= seq![(kv.0, v)] + updated_entries(tail, ups));
                } else {
                    assert(out == p);
                    assert(read_lines(outs, want, cur) == here + read_lines(outs.drop_first(), want, cur));
                    assert(updated_entries(here + tail, ups) =~= updated_entries(here, ups) + updated_entries(tail, ups));
                    assert(updated_entries(here, ups) =~= here);
                }
            },
        }
    }
}

proof fn lemma_rewrite_shaped(
    ps: Seq<Seq<char>>,
    want: Seq<char>,
    ups: Seq<(Seq<char>, Seq<char>)>,
    cur: Option<Seq<char>>,
)
    requires
        forall|i: int| 0 <= i < ps.len() ==> piece_ok(#[trigger] ps[i]),
        writable_updates(ups),
    ensures
        forall|i: int|
            0 <= i < ps.len() ==> piece_ok(#[trigger] rewrite_lines(ps, want, ups, cur)[i]) && (rewrite_lines(
                ps,
                want,
                ups,
                cur,
            )[i].last() == '\n' <==> ps[i].last() == '\n'),
    decreases ps.len(),
{
    lemma_rewrite_keeps_lines(ps, want, ups, cur);
    if ps.len() > 0 {
        let p = ps[0];
        let l = strip_all_endings(p);
        let rest = ps.drop_first();
        let next = match spec_section_name(l) {
            Some(n) => Some(n),
            None => cur,
        };
        assert forall|i: int| 0 <= i < rest.len() implies piece_ok(#[trigger] rest[i]) by {
            assert(rest[i] == ps[i + 1]);
        }
        lemma_rewrite_shaped(rest, want, ups, next);
        let outs = rewrite_lines(ps, want, ups, cur);
        assert(outs.drop_first() =~= rewrite_lines(rest, want, ups, next));
        let out = outs[0];
        assert(piece_ok(out) && (out.last() == '\n' <==> p.last() == '\n')) by {
            if out != p {
                let kv = spec_split_kv(l)->Some_0;
                let v = lookup(ups, kv.0)->Some_0;
                assert(spec_split_kv(l) is Some && lookup(ups, kv.0) is Some);
                lemma_lookup_writable(ups, kv.0);
                let eq = find_from(l, '=', 0)->Some_0;
                lemma_find_from(l, '=', 0);
                lemma_trim_ends(l.subrange(0, eq));
                lemma_targeted_out(p, v);
                lemma_piece_parts(p);
                let a = l.subrange(0, eq);
                assert forall|q: int| 0 <= q < a.len() implies #[trigger] a[q] != '\n' by {
                    assert(a[q] == l[q]);
                }
                lemma_no_char_trim(a, '\n');
                let x = kv.0 + seq!['='] + v;
                let e = ending_of(p);
                assert(out == x + e);
                assert forall|q: int| 0 <= q < x.len() implies #[trigger] x[q] != '\n' by {
                    if q < kv.0.len() {
                        assert(x[q] == kv.0[q]);
                    } else if q > kv.0.len() {
                        assert(x[q] == v[q - kv.0.len() - 1]);
                    }
                }
                assert forall|q: int| 0 <= q < out.len() - 1 implies #[trigger] out[q] != '\n' by {
                    if q < x.len() {
                        assert(out[q] == x[q]);
                    } else {
                        assert(out[q] == e[q - x.len()]);
                    }
                }
                if e.len() > 0 {
                    assert(out.last() == e.last());
                } else {
                    assert(out.last() == x.last());
                    assert(x.last() != '\n');
                }
            }
        }
        assert forall|i: int| 0 <= i < ps.len() implies piece_ok(#[trigger] outs[i]) && (outs[i].last() == '\n' <==> ps[i].last()
            == '\n') by {
            if i > 0 {
                assert(outs[i] == rewrite_lines(rest, want, ups, next)[i - 1]);
                assert(ps[i] == rest[i - 1]);
            }
        }
    }
}

/// Reading a section back after rewriting it gives the entries it had,
/// in the same order, each with the value that the last update for its key
/// set, when there is one. This holds for updates whose values are single
/// lines with no whitespace at either end and whose keys do not start with
/// `[`.
pub proof fn lemma_write_then_read(text: Seq<char>, section: Seq<char>, ups: Seq<(Seq<char>, Seq<char>)>)
    requires
        writable_updates(ups),
    ensures
        spec_read_section(spec_rewrite(text, section, ups), section) == updated_entries(spec_read_section(text, section), ups),
{
    let ps = pieces(text);
    let want = lower_seq(section);
    lemma_pieces_acc_shaped(text, 0, 0);
    lemma_rewrite_shaped(ps, want, ups, None);
    lemma_rewrite_keeps_lines(ps, want, ups, None);
    let outs = rewrite_lines(ps, want, ups, None);
    assert(pieces_shaped(outs)) by {
        assert forall|i: int| 0 <= i < outs.len() implies piece_ok(#[trigger] outs[i]) && (i + 1 < outs.len() ==> outs[i].last()
            == '\n') by {
            assert(piece_ok(ps[i]));
        }
    }
    lemma_pieces_of_concat(outs);
    lemma_read_rewrite_lines(ps, want, ups, None);
}

} // verus!
