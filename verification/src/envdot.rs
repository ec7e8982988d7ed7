//! Dotenv files: parsing `KEY=value` lines into a key/value mapping.
//!
//! A file is a sequence of `\n`-separated lines.  A meaningful line is:
//! optional leading whitespace, an optional `export` keyword followed by
//! whitespace, the key (everything up to the first `=`, trimmed of
//! surrounding whitespace, non-empty), `=`, then the value: the rest of the
//! line with leading whitespace removed.  A value wrapped in matching single
//! or double quotes loses exactly one layer of quotes; any other value is
//! kept verbatim, trailing whitespace included.  Lines with no `=`, an
//! empty key or an empty value are silently skipped.  When a key occurs on
//! several lines of one file, the last line wins.

use vstd::prelude::*;
use crate::envmap::{pairs_map, lookup_pairs, lemma_pairs_map_push};
use crate::strutil::{is_line_space, line_space};

verus! {

/// The first position at or after `i` holding `c`, or the length.
pub open spec fn find_char(s: Seq<char>, c: char, i: int) -> int
    decreases s.len() - i,
    when 0 <= i <= s.len()
{
    if i == s.len() {
        i
    } else if s[i] == c {
        i
    } else {
        find_char(s, c, i + 1)
    }
}

/// The first position at or after `i` holding something other than
/// line-internal whitespace, or the length.
pub open spec fn skip_spaces(s: Seq<char>, i: int) -> int
    decreases s.len() - i,
    when 0 <= i <= s.len()
{
    if i < s.len() && is_line_space(s[i]) {
        skip_spaces(s, i + 1)
    } else {
        i
    }
}

/// Whether `s` carries the `export` keyword at position `i`: the six
/// letters followed by one whitespace character.
pub open spec fn has_export(s: Seq<char>, i: int) -> bool {
    i + 7 <= s.len() && s[i] == 'e' && s[i + 1] == 'x' && s[i + 2] == 'p' && s[i + 3] == 'o' && s[i
        + 4] == 'r' && s[i + 5] == 't' && is_line_space(s[i + 6])
}

/// Where the key of a line starts: after leading whitespace, an optional
/// `export` keyword, and the whitespace that follows it.
pub open spec fn key_start(s: Seq<char>) -> int {
    let a = skip_spaces(s, 0);
    if has_export(s, a) {
        skip_spaces(s, a + 7)
    } else {
        a
    }
}

/// `s` without trailing line-internal whitespace.
pub open spec fn trim_right(s: Seq<char>) -> Seq<char>
    decreases s.len(),
{
    if s.len() > 0 && is_line_space(s.last()) {
        trim_right(s.drop_last())
    } else {
        s
    }
}

/// One layer of matching single or double quotes removed, if present.
pub open spec fn unquote(v: Seq<char>) -> Seq<char> {
    if v.len() >= 2 && v[0] == v[v.len() - 1] && (v[0] == '\'' || v[0] == '"') {
        v.subrange(1, v.len() - 1)
    } else {
        v
    }
}

/// What one line contributes: a key/value pair, or nothing for a line that
/// does not match the grammar.
pub open spec fn parse_line(s: Seq<char>) -> Option<(Seq<char>, Seq<char>)> {
    let b = key_start(s);
    let e = find_char(s, '=', b);
    if e == s.len() {
        None
    } else {
        let k = trim_right(s.subrange(b, e));
        let v0 = skip_spaces(s, e + 1);
        if k.len() == 0 || v0 == s.len() {
            None
        } else {
            Some((k, unquote(s.subrange(v0, s.len() as int))))
        }
    }
}

/// A line folded into a map under last-wins semantics.
pub open spec fn apply_line(m: Map<Seq<char>, Seq<char>>, s: Seq<char>) -> Map<
    Seq<char>,
    Seq<char>,
> {
    match parse_line(s) {
        Some(kv) => m.insert(kv.0, kv.1),
        None => m,
    }
}

/// `find_char` stays between its starting point and the length.
pub proof fn lemma_find_char_bounds(s: Seq<char>, c: char, i: int)
    requires
        0 <= i <= s.len(),
    ensures
        i <= find_char(s, c, i) <= s.len(),
    decreases s.len() - i,
{
    if i < s.len() && s[i] != c {
        lemma_find_char_bounds(s, c, i + 1);
    }
}

/// The lines of a file, split at every `\n`.
pub open spec fn split_lines(s: Seq<char>) -> Seq<Seq<char>>
    decreases s.len(),
    via split_lines_decreases
{
    let j = find_char(s, '\n', 0);
    if j == s.len() {
        seq![s]
    } else {
        seq![s.subrange(0, j)] + split_lines(s.subrange(j + 1, s.len() as int))
    }
}

#[via_fn]
proof fn split_lines_decreases(s: Seq<char>) {
    lemma_find_char_bounds(s, '\n', 0);
}

/// Lines folded into a map in order, so a later line for a key overrides an
/// earlier one.
pub open spec fn lines_map(ls: Seq<Seq<char>>) -> Map<Seq<char>, Seq<char>>
    decreases ls.len(),
{
    if ls.len() == 0 {
        Map::empty()
    } else {
        apply_line(lines_map(ls.drop_last()), ls.last())
    }
}

/// The mapping described by the full contents of a dotenv file.
pub open spec fn dotenv_map(s: Seq<char>) -> Map<Seq<char>, Seq<char>> {
    lines_map(split_lines(s))
}

/// [`lines_map`] with an explicit starting map, folding from the left;
/// used to reason about parsing a file line by line.
pub open spec fn lines_map_upd(m: Map<Seq<char>, Seq<char>>, ls: Seq<Seq<char>>) -> Map<
    Seq<char>,
    Seq<char>,
>
    decreases ls.len(),
{
    if ls.len() == 0 {
        m
    } else {
        lines_map_upd(apply_line(m, ls[0]), ls.drop_first())
    }
}

proof fn lemma_lines_map_upd_push(m: Map<Seq<char>, Seq<char>>, ls: Seq<Seq<char>>, l: Seq<char>)
    ensures
        lines_map_upd(m, ls.push(l)) == apply_line(lines_map_upd(m, ls), l),
    decreases ls.len(),
{
    if ls.len() == 0 {
        assert(ls.push(l)[0] == l);
        assert(ls.push(l).drop_first() =~= Seq::<Seq<char>>::empty());
        assert(lines_map_upd(apply_line(m, l), Seq::<Seq<char>>::empty()) == apply_line(m, l));
    } else {
        assert(ls.push(l)[0] == ls[0]);
        assert(ls.push(l).drop_first() =~= ls.drop_first().push(l));
        lemma_lines_map_upd_push(apply_line(m, ls[0]), ls.drop_first(), l);
    }
}

proof fn lemma_lines_map_upd_one(m: Map<Seq<char>, Seq<char>>, l: Seq<char>)
    ensures
        lines_map_upd(m, seq![l]) == apply_line(m, l),
{
    assert(seq![l][0] == l);
    assert(seq![l].drop_first() =~= Seq::<Seq<char>>::empty());
    assert(lines_map_upd(apply_line(m, l), Seq::<Seq<char>>::empty()) == apply_line(m, l));
}

/// Folding from the left with an empty start agrees with [`lines_map`].
proof fn lemma_lines_map_upd(ls: Seq<Seq<char>>)
    ensures
        lines_map(ls) == lines_map_upd(Map::empty(), ls),
    decreases ls.len(),
{
    if ls.len() > 0 {
        lemma_lines_map_upd(ls.drop_last());
        lemma_lines_map_upd_push(Map::empty(), ls.drop_last(), ls.last());
        assert(ls.drop_last().push(ls.last()) =~= ls);
    }
}

/// Finding a character in a suffix is finding it in the whole, shifted.
proof fn lemma_find_char_sub(s: Seq<char>, c: char, i: int)
    requires
        0 <= i <= s.len(),
    ensures
        find_char(s.subrange(i, s.len() as int), c, 0) == find_char(s, c, i) - i,
    decreases s.len() - i,
{
    lemma_find_char_shift(s, c, i, 0);
}

/// `find_char` on a suffix tracks `find_char` on the whole string.
proof fn lemma_find_char_shift(s: Seq<char>, c: char, i: int, j: int)
    requires
        0 <= i <= s.len(),
        0 <= j <= s.len() - i,
    ensures
        find_char(s.subrange(i, s.len() as int), c, j) == find_char(s, c, i + j) - i,
    decreases s.len() - i - j,
{
    let t = s.subrange(i, s.len() as int);
    if j == t.len() {
    } else if t[j] == c {
    } else {
        lemma_find_char_shift(s, c, i, j + 1);
    }
}

/// A parsed dotenv file: the keys and values of its meaningful lines,
/// later lines overriding earlier ones.
#[derive(Debug, Clone)]
pub struct DotEnv {
    entries: Vec<(String, String)>,
}

impl View for DotEnv {
    type V = Map<Seq<char>, Seq<char>>;

    closed spec fn view(&self) -> Map<Seq<char>, Seq<char>> {
        pairs_map(self.entries@)
    }
}

impl DotEnv {
    /// The value recorded for `key`, if any.
    pub fn var(&self, key: &str) -> (r: Option<String>)
        ensures
            (match r {
                Some(v) => self@.contains_key(key@) && v@ == self@[key@],
                None => !self@.contains_key(key@),
            }),
    {
        lookup_pairs(&self.entries, key)
    }
}

/// Get the requested variable from a parsed dotenv file.
pub fn get(dotenv: &DotEnv, key: &str) -> (r: Option<String>)
    ensures
        (match r {
            Some(v) => dotenv@.contains_key(key@) && v@ == dotenv@[key@],
            None => !dotenv@.contains_key(key@),
        }),
{
    dotenv.var(key)
}

/// Parse one line; `None` for a line that does not match the grammar.
fn parse_line_exec(line: &str) -> (r: Option<(String, String)>)
    ensures
        (match r {
            Some(kv) => parse_line(line@) == Some((kv.0@, kv.1@)),
            None => parse_line(line@) is None,
        }),
{
    let n = line.unicode_len();

    // Leading whitespace.
    let mut a: usize = 0;
    while a < n && line_space(line.get_char(a))
        invariant
            0 <= a <= n,
            n == line@.len(),
            skip_spaces(line@, 0) == skip_spaces(line@, a as int),
        decreases n - a,
    {
        a += 1;
    }
    proof {
        assert(skip_spaces(line@, 0) == a as int);
    }

    // Optional `export` keyword followed by whitespace.
    let b: usize = if n - a >= 7 && line.get_char(a) == 'e' && line.get_char(a + 1) == 'x'
        && line.get_char(a + 2) == 'p' && line.get_char(a + 3) == 'o' && line.get_char(a + 4)
        == 'r' && line.get_char(a + 5) == 't' && line_space(line.get_char(a + 6)) {
        let mut b: usize = a + 7;
        while b < n && line_space(line.get_char(b))
            invariant
                a + 7 <= b <= n,
                n == line@.len(),
                skip_spaces(line@, a + 7) == skip_spaces(line@, b as int),
            decreases n - b,
        {
            b += 1;
        }
        proof {
            assert(has_export(line@, a as int));
            assert(skip_spaces(line@, a + 7) == b as int);
        }
        b
    } else {
        proof {
            assert(!has_export(line@, a as int));
        }
        a
    };
    proof {
        assert(key_start(line@) == b as int);
    }

    // The first `=` at or after the key start.
    let mut e: usize = b;
    while e < n && line.get_char(e) != '='
        invariant
            b <= e <= n,
            n == line@.len(),
            find_char(line@, '=', b as int) == find_char(line@, '=', e as int),
        decreases n - e,
    {
        e += 1;
    }
    proof {
        assert(find_char(line@, '=', b as int) == e as int);
    }
    if e == n {
        return None;
    }

    // The key, trimmed of trailing whitespace.
    let mut k_end: usize = e;
    while k_end > b && line_space(line.get_char(k_end - 1))
        invariant
            b <= k_end <= e,
            e < n == line@.len(),
            trim_right(line@.subrange(b as int, e as int)) == trim_right(
                line@.subrange(b as int, k_end as int),
            ),
        decreases k_end,
    {
        proof {
            assert(line@.subrange(b as int, k_end as int).drop_last() =~= line@.subrange(
                b as int,
                k_end - 1,
            ));
        }
        k_end -= 1;
    }
    proof {
        assert(trim_right(line@.subrange(b as int, k_end as int)) == line@.subrange(
            b as int,
            k_end as int,
        ));
    }
    if k_end == b {
        return None;
    }

    // The value: the rest of the line after `=` and leading whitespace.
    let mut v0: usize = e + 1;
    while v0 < n && line_space(line.get_char(v0))
        invariant
            e + 1 <= v0 <= n,
            n == line@.len(),
            skip_spaces(line@, e + 1) == skip_spaces(line@, v0 as int),
        decreases n - v0,
    {
        v0 += 1;
    }
    proof {
        assert(skip_spaces(line@, e + 1) == v0 as int);
    }
    if v0 == n {
        return None;
    }

    let key = line.substring_char(b, k_end).to_owned();
    let ghost raw = line@.subrange(v0 as int, n as int);
    proof {
        assert(raw[0] == line@[v0 as int]);
        assert(raw[raw.len() - 1] == line@[n - 1]);
    }
    let first = line.get_char(v0);
    let last = line.get_char(n - 1);
    let value = if n - v0 >= 2 && first == last && (first == '\'' || first == '"') {
        proof {
            assert(raw.subrange(1, raw.len() - 1) =~= line@.subrange(v0 + 1, n - 1));
            assert(unquote(raw) == line@.subrange(v0 + 1, n - 1));
        }
        line.substring_char(v0 + 1, n - 1).to_owned()
    } else {
        proof {
            assert(unquote(raw) == raw);
        }
        line.substring_char(v0, n).to_owned()
    };
    Some((key, value))
}

/// Parse the full contents of a dotenv file.
pub fn parse_dotenv(contents: &str) -> (r: DotEnv)
    ensures
        r@ == dotenv_map(contents@),
{
    let n = contents.unicode_len();
    let mut entries: Vec<(String, String)> = Vec::new();
    let mut start: usize = 0;
    proof {
        lemma_lines_map_upd(split_lines(contents@));
        assert(contents@.subrange(0, n as int) =~= contents@);
    }
    loop
        invariant_except_break
            0 <= start <= n,
            n == contents@.len(),
            lines_map_upd(
                pairs_map(entries@),
                split_lines(contents@.subrange(start as int, n as int)),
            ) == dotenv_map(contents@),
        ensures
            pairs_map(entries@) == dotenv_map(contents@),
        decreases n - start,
    {
        let ghost rem = contents@.subrange(start as int, n as int);

        // The end of the current line.
        let mut j: usize = start;
        while j < n && contents.get_char(j) != '\n'
            invariant
                start <= j <= n,
                n == contents@.len(),
                find_char(contents@, '\n', start as int) == find_char(contents@, '\n', j as int),
            decreases n - j,
        {
            j += 1;
        }
        proof {
            assert(find_char(contents@, '\n', start as int) == j as int);
            lemma_find_char_sub(contents@, '\n', start as int);
            assert(rem.subrange(0, j - start) =~= contents@.subrange(start as int, j as int));
        }

        let line = contents.substring_char(start, j);
        let ghost m0 = pairs_map(entries@);
        match parse_line_exec(line) {
            Some(kv) => {
                proof {
                    lemma_pairs_map_push(entries@, kv);
                }
                entries.push(kv);
            },
            None => {},
        }
        proof {
            assert(pairs_map(entries@) == apply_line(m0, line@));
        }

        if j == n {
            proof {
                assert(find_char(rem, '\n', 0) == rem.len());
                assert(split_lines(rem) =~= seq![rem]);
                assert(rem =~= line@);
                lemma_lines_map_upd_one(m0, line@);
            }
            break;
        }
        proof {
            assert(find_char(rem, '\n', 0) == j - start);
            assert(split_lines(rem) == seq![rem.subrange(0, j - start)] + split_lines(
                rem.subrange(j - start + 1, rem.len() as int),
            ));
            assert(rem.subrange(0, j - start) =~= line@);
            assert(rem.subrange(j - start + 1, rem.len() as int) =~= contents@.subrange(
                j + 1,
                n as int,
            ));
            let tail = split_lines(contents@.subrange(j + 1, n as int));
            assert((seq![line@] + tail)[0] == line@);
            assert((seq![line@] + tail).drop_first() =~= tail);
            assert(lines_map_upd(m0, seq![line@] + tail) == lines_map_upd(
                apply_line(m0, line@),
                tail,
            ));
        }
        start = j + 1;
    }
    DotEnv { entries }
}

/// `find_char` finds `c` at `p` when no earlier position from `i` holds it.
proof fn lemma_find_char_at(s: Seq<char>, c: char, i: int, p: int)
    requires
        0 <= i <= p < s.len(),
        s[p] == c,
        forall|j: int| i <= j < p ==> s[j] != c,
    ensures
        find_char(s, c, i) == p,
    decreases p - i,
{
    if i < p {
        lemma_find_char_at(s, c, i + 1, p);
    }
}

/// `find_char` runs to the end when no position from `i` holds `c`.
proof fn lemma_find_char_none(s: Seq<char>, c: char, i: int)
    requires
        0 <= i <= s.len(),
        forall|j: int| i <= j < s.len() ==> s[j] != c,
    ensures
        find_char(s, c, i) == s.len(),
    decreases s.len() - i,
{
    if i < s.len() {
        lemma_find_char_none(s, c, i + 1);
    }
}

/// Trailing whitespace is removed one character at a time.
proof fn lemma_trim_right_no_space(s: Seq<char>)
    requires
        s.len() == 0 || !is_line_space(s.last()),
    ensures
        trim_right(s) == s,
{
}

/// A well-formed key for the round-trip law: non-empty, and free of `=`,
/// whitespace and newlines.
pub open spec fn plain_key(k: Seq<char>) -> bool {
    k.len() > 0 && forall|i: int|
        0 <= i < k.len() ==> k[i] != '=' && !is_line_space(#[trigger] k[i]) && k[i] != '\n'
}

/// A well-formed value for the round-trip law: non-empty, on one line, not
/// opening with whitespace (which the parser would strip) and not wrapped
/// in matching quotes (which the parser would remove).
pub open spec fn plain_value(v: Seq<char>) -> bool {
    v.len() > 0 && !is_line_space(v[0]) && !(v.len() >= 2 && v[0] == v[v.len() - 1] && (v[0]
        == '\'' || v[0] == '"')) && forall|i: int| 0 <= i < v.len() ==> #[trigger] v[i] != '\n'
}

/// The `export` keyword cannot occur at the start of `k + "=" + rest`,
/// because it would need a whitespace character among the first seven and
/// there is none.
proof fn lemma_no_export_plain(k: Seq<char>, rest: Seq<char>)
    requires
        plain_key(k),
        rest.len() > 0,
        rest[0] == '=',
    ensures
        !has_export(k + rest, 0),
{
    let s = k + rest;
    if has_export(s, 0) {
        if k.len() > 6 {
            assert(s[6] == k[6]);
        } else if k.len() == 6 {
            assert(s[6] == '=');
        } else {
            let p = k.len() as int;
            assert(s[p] == '=');
            assert(is_line_space(s[6]));
        }
    }
}

/// The round-trip law for a simple line `KEY=value`: the key and the value
/// come back exactly.
pub proof fn lemma_line_roundtrip_plain(k: Seq<char>, v: Seq<char>)
    requires
        plain_key(k),
        plain_value(v),
    ensures
        parse_line(k + seq!['='] + v) == Some((k, v)),
{
    let s = k + seq!['='] + v;
    let kl = k.len() as int;
    assert(s.len() == kl + 1 + v.len());
    assert(forall|i: int| 0 <= i < kl ==> s[i] == k[i]);
    assert(s[kl] == '=');
    assert(forall|i: int| 0 <= i < v.len() ==> s[kl + 1 + i] == v[i]);

    assert(skip_spaces(s, 0) == 0);
    lemma_no_export_plain(k, seq!['='] + v);
    assert(seq!['='] + v =~= s.skip(kl));
    assert((k + (seq!['='] + v)) =~= s);
    assert(key_start(s) == 0);

    lemma_find_char_at(s, '=', 0, kl);
    assert(s.subrange(0, kl) =~= k);
    lemma_trim_right_no_space(k);

    assert(skip_spaces(s, kl + 1) == kl + 1);
    let raw = s.subrange(kl + 1, s.len() as int);
    assert(raw =~= v);
    assert(unquote(v) == v);
}

/// The round-trip law for a quoted line `KEY='value'` or `KEY="value"`:
/// exactly one layer of quotes is stripped.
pub proof fn lemma_line_roundtrip_quoted(k: Seq<char>, v: Seq<char>, q: char)
    requires
        plain_key(k),
        v.len() > 0,
        forall|i: int| 0 <= i < v.len() ==> #[trigger] v[i] != '\n',
        q == '\'' || q == '"',
    ensures
        parse_line(k + seq!['='] + seq![q] + v + seq![q]) == Some((k, v)),
{
    let s = k + seq!['='] + seq![q] + v + seq![q];
    let kl = k.len() as int;
    assert(s.len() == kl + 3 + v.len());
    assert(forall|i: int| 0 <= i < kl ==> s[i] == k[i]);
    assert(s[kl] == '=');
    assert(s[kl + 1] == q);
    assert(forall|i: int| 0 <= i < v.len() ==> s[kl + 2 + i] == v[i]);
    assert(s[s.len() - 1] == q);

    assert(skip_spaces(s, 0) == 0);
    lemma_no_export_plain(k, seq!['='] + seq![q] + v + seq![q]);
    assert((k + (seq!['='] + seq![q] + v + seq![q])) =~= s);
    assert(key_start(s) == 0);

    lemma_find_char_at(s, '=', 0, kl);
    assert(s.subrange(0, kl) =~= k);
    lemma_trim_right_no_space(k);

    assert(!is_line_space(q));
    assert(skip_spaces(s, kl + 1) == kl + 1);
    let raw = s.subrange(kl + 1, s.len() as int);
    assert(raw.len() >= 2);
    assert(raw[0] == q);
    assert(raw[raw.len() - 1] == q);
    assert(raw.subrange(1, raw.len() - 1) =~= v);
}

/// The round-trip law for an exported line `export KEY = value`: the
/// keyword and the whitespace around `=` are ignored.
pub proof fn lemma_line_roundtrip_export(k: Seq<char>, v: Seq<char>)
    requires
        plain_key(k),
        plain_value(v),
    ensures
        parse_line(seq!['e', 'x', 'p', 'o', 'r', 't', ' '] + k + seq![' ', '=', ' '] + v) == Some(
            (k, v),
        ),
{
    let s = seq!['e', 'x', 'p', 'o', 'r', 't', ' '] + k + seq![' ', '=', ' '] + v;
    let kl = k.len() as int;
    assert(s.len() == kl + 10 + v.len());
    assert(s[0] == 'e' && s[1] == 'x' && s[2] == 'p' && s[3] == 'o' && s[4] == 'r' && s[5] == 't'
        && s[6] == ' ');
    assert(forall|i: int| 0 <= i < kl ==> s[7 + i] == k[i]);
    assert(s[7 + kl] == ' ');
    assert(s[8 + kl] == '=');
    assert(s[9 + kl] == ' ');
    assert(forall|i: int| 0 <= i < v.len() ==> s[10 + kl + i] == v[i]);

    assert(skip_spaces(s, 0) == 0);
    assert(has_export(s, 0));
    assert(!is_line_space(s[7]));
    assert(skip_spaces(s, 7) == 7);
    assert(key_start(s) == 7);

    assert(forall|j: int| 7 <= j < 8 + kl ==> s[j] != '=');
    lemma_find_char_at(s, '=', 7, 8 + kl);

    assert(s.subrange(7, 8 + kl) =~= k.push(' '));
    assert(k.push(' ').drop_last() =~= k);
    lemma_trim_right_no_space(k);
    assert(trim_right(k.push(' ')) == k);

    assert(is_line_space(s[9 + kl]));
    assert(!is_line_space(s[10 + kl]));
    assert(skip_spaces(s, 9 + kl) == skip_spaces(s, 10 + kl));
    assert(skip_spaces(s, 10 + kl) == 10 + kl);
    let raw = s.subrange(10 + kl, s.len() as int);
    assert(raw =~= v);
    assert(unquote(v) == v);
}

/// Nothing before the position `find_char` returns holds `c`.
proof fn lemma_find_char_misses(s: Seq<char>, c: char, i: int)
    requires
        0 <= i <= s.len(),
    ensures
        forall|j: int| i <= j < find_char(s, c, i) ==> s[j] != c,
    decreases s.len() - i,
{
    if i < s.len() && s[i] != c {
        lemma_find_char_misses(s, c, i + 1);
    }
}

/// `find_char` within the left part of a concatenation.
proof fn lemma_find_char_concat_left(a: Seq<char>, b: Seq<char>, c: char, i: int)
    requires
        0 <= i <= a.len(),
        find_char(a, c, i) < a.len(),
    ensures
        find_char(a + b, c, i) == find_char(a, c, i),
    decreases a.len() - i,
{
    lemma_find_char_bounds(a, c, i);
    if i < a.len() && a[i] != c {
        lemma_find_char_concat_left(a, b, c, i + 1);
    }
}

/// Splitting distributes over a newline between two parts.
proof fn lemma_split_lines_concat(a: Seq<char>, b: Seq<char>)
    ensures
        split_lines(a + seq!['\n'] + b) == split_lines(a) + split_lines(b),
    decreases a.len(),
{
    let s = a + seq!['\n'] + b;
    let ja = find_char(a, '\n', 0);
    lemma_find_char_bounds(a, '\n', 0);
    if ja == a.len() {
        lemma_find_char_misses(a, '\n', 0);
        assert(forall|j: int| 0 <= j < a.len() ==> s[j] == a[j]);
        assert(s[a.len() as int] == '\n');
        lemma_find_char_at(s, '\n', 0, a.len() as int);
        assert(s.subrange(0, a.len() as int) =~= a);
        assert(s.subrange(a.len() as int + 1, s.len() as int) =~= b);
        assert(split_lines(s) == seq![a] + split_lines(b));
        assert(split_lines(a) =~= seq![a]);
    } else {
        assert((a + seq!['\n']) + b =~= s);
        assert(a + (seq!['\n'] + b) =~= s);
        lemma_find_char_concat_left(a, seq!['\n'] + b, '\n', 0);
        assert(find_char(s, '\n', 0) == ja);
        assert(s.subrange(0, ja) =~= a.subrange(0, ja));
        assert(s.subrange(ja + 1, s.len() as int) =~= a.subrange(ja + 1, a.len() as int) + seq![
            '\n'] + b);
        lemma_split_lines_concat(a.subrange(ja + 1, a.len() as int), b);
        assert(split_lines(s) == seq![a.subrange(0, ja)] + (split_lines(
            a.subrange(ja + 1, a.len() as int),
        ) + split_lines(b)));
        assert(seq![a.subrange(0, ja)] + (split_lines(a.subrange(ja + 1, a.len() as int))
            + split_lines(b)) =~= (seq![a.subrange(0, ja)] + split_lines(
            a.subrange(ja + 1, a.len() as int),
        )) + split_lines(b));
    }
}

/// The last line wins: appending a line that parses to `(k, v)` to any
/// contents makes `k` map to `v`, whatever earlier lines said.
pub proof fn lemma_dotenv_last_wins(c: Seq<char>, l: Seq<char>, k: Seq<char>, v: Seq<char>)
    requires
        parse_line(l) == Some((k, v)),
        forall|i: int| 0 <= i < l.len() ==> #[trigger] l[i] != '\n',
    ensures
        dotenv_map(c + seq!['\n'] + l).contains_key(k),
        dotenv_map(c + seq!['\n'] + l)[k] == v,
{
    lemma_split_lines_concat(c, l);
    lemma_find_char_none(l, '\n', 0);
    assert(split_lines(l) =~= seq![l]);
    let ls = split_lines(c);
    assert(split_lines(c + seq!['\n'] + l) == ls + seq![l]);
    assert((ls + seq![l]).drop_last() =~= ls);
    assert((ls + seq![l]).last() == l);
    assert(lines_map(ls + seq![l]) == apply_line(lines_map(ls), l));
}

} // verus!
