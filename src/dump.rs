//! The dump-file grammar: one `set NAME = ...` assignment per line, either a
//! scalar (quoted, bare word, or empty) or a parenthesised list of quoted items.
use vstd::prelude::*;
use vstd::string::*;

use crate::session::Genesis;

verus! {

/// The classes of characters that the grammar scans runs of.
#[derive(PartialEq, Eq, Clone, Copy)]
pub enum CharClass {
    /// Unicode white space.
    Space,
    /// ASCII letters and the underscore: the characters of a variable name.
    Name,
    /// Neither white space nor a single quote: the characters of a bare value.
    Plain,
    /// Anything but a line feed.
    NotNewline,
    /// Anything but `=`.
    NotEquals,
}

/// Unicode `White_Space`.
pub open spec fn is_ws(c: char) -> bool {
    let u = c as u32;
    (9 <= u && u <= 13) || u == 32 || u == 0x85 || u == 0xa0 || u == 0x1680 || (0x2000 <= u
        && u <= 0x200a) || u == 0x2028 || u == 0x2029 || u == 0x202f || u == 0x205f || u
        == 0x3000
}

pub open spec fn is_name_char(c: char) -> bool {
    let u = c as u32;
    (65 <= u && u <= 90) || (97 <= u && u <= 122) || u == 95
}

pub open spec fn in_class(c: char, k: CharClass) -> bool {
    match k {
        CharClass::Space => is_ws(c),
        CharClass::Name => is_name_char(c),
        CharClass::Plain => !is_ws(c) && c != '\'',
        CharClass::NotNewline => c != '\n',
        CharClass::NotEquals => c != '=',
    }
}

/// Length of the longest run of characters of class `k` that starts at `i`.
pub open spec fn run_len(s: Seq<char>, i: int, k: CharClass) -> nat
    decreases s.len() - i,
{
    if 0 <= i < s.len() && in_class(s[i], k) {
        1 + run_len(s, i + 1, k)
    } else {
        0
    }
}

/// End of the run of class `k` that starts at `i`.
pub open spec fn run_end(s: Seq<char>, i: int, k: CharClass) -> int {
    i + run_len(s, i, k)
}

/// The position of the last single quote in `s[lo..hi]`, or -1 if there is none.
pub open spec fn last_quote(s: Seq<char>, lo: int, hi: int) -> int
    decreases hi - lo,
{
    if hi <= lo {
        -1
    } else if s[hi - 1] == '\'' {
        hi - 1
    } else {
        last_quote(s, lo, hi - 1)
    }
}

/// A single quote at `j` closes a list: only white space stands between it and `)`.
pub open spec fn closes_list(s: Seq<char>, j: int) -> bool {
    let e = run_end(s, j + 1, CharClass::Space);
    s[j] == '\'' && e < s.len() && s[e] == ')'
}

/// The last position in `s[lo..hi]` that closes a list, or -1 if there is none.
pub open spec fn last_close(s: Seq<char>, lo: int, hi: int) -> int
    decreases hi - lo,
{
    if hi <= lo {
        -1
    } else if closes_list(s, hi - 1) {
        hi - 1
    } else {
        last_close(s, lo, hi - 1)
    }
}

pub open spec fn paren_in(s: Seq<char>, lo: int, hi: int) -> bool {
    exists|m: int| lo <= m < hi && s[m] == ')'
}

/// The left-hand side `set NAME =`: the bounds of the name and the position of the
/// first character after the white space that follows `=`. With `strict`, white
/// space is required on both sides of `=`.
pub open spec fn lhs(s: Seq<char>, strict: bool) -> Option<(int, int, int)> {
    let b = run_end(s, 3, CharClass::Space);
    let n = run_end(s, b, CharClass::Name);
    let c = run_end(s, n, CharClass::Space);
    let v = run_end(s, c + 1, CharClass::Space);
    if s.len() >= 3 && s[0] == 's' && s[1] == 'e' && s[2] == 't' && b > 3 && n > b && c < s.len()
        && s[c] == '=' && (!strict || (c > n && v > c + 1)) {
        Some((b, n, v))
    } else {
        None
    }
}

/// The scalar assignment on a line, tried as a quoted value (up to the last quote
/// before any line feed), then a bare word, then as an empty value.
pub open spec fn single_of(s: Seq<char>) -> Option<(Seq<char>, Seq<char>)> {
    match lhs(s, false) {
        None => None,
        Some((b, n, v)) => {
            let name = s.subrange(b, n);
            let j = last_quote(s, v + 2, run_end(s, v + 1, CharClass::NotNewline));
            if v < s.len() && s[v] == '\'' && j >= 0 {
                Some((name, s.subrange(v + 1, j)))
            } else if v < s.len() && in_class(s[v], CharClass::Plain) {
                Some((name, s.subrange(v, run_end(s, v, CharClass::Plain))))
            } else {
                Some((name, Seq::empty()))
            }
        },
    }
}

/// Length of the item separator `'<white space>'` that starts at `i`, or 0 if none does.
pub open spec fn sep_len(t: Seq<char>, i: int) -> nat {
    let w = run_len(t, i + 1, CharClass::Space);
    if 0 <= i && i + 1 + w < t.len() && t[i] == '\'' && w > 0 && t[i + 1 + w] == '\'' {
        w + 2
    } else {
        0
    }
}

/// Distance from `i` to the first separator at or after `i` (to the end if none).
pub open spec fn next_sep_off(t: Seq<char>, i: int) -> nat
    decreases t.len() - i,
{
    if i >= t.len() || sep_len(t, i) > 0 {
        0
    } else {
        1 + next_sep_off(t, i + 1)
    }
}

/// The pieces of `t[i..]` between separators, scanned from the left.
pub open spec fn split_from(t: Seq<char>, i: int) -> Seq<Seq<char>>
    decreases t.len() - i,
{
    let k = i + next_sep_off(t, i);
    if i < 0 || i > t.len() {
        Seq::empty()
    } else if sep_len(t, k) == 0 {
        seq![t.subrange(i, t.len() as int)]
    } else {
        seq![t.subrange(i, k)] + split_from(t, k + sep_len(t, k))
    }
}

/// The items of a list body: the text between its first and last quote, cut at
/// each `'<white space>'`.
pub open spec fn split_items(t: Seq<char>) -> Seq<Seq<char>> {
    split_from(t, 0)
}

/// The list assignment on a line: `set NAME = ('a' 'b' ...)`, or any `set NAME = (...)`
/// without a closing quoted item, which is an empty list.
pub open spec fn array_of(s: Seq<char>) -> Option<(Seq<char>, Seq<Seq<char>>)> {
    match lhs(s, true) {
        None => None,
        Some((b, n, p)) => {
            let name = s.subrange(b, n);
            let j = last_close(s, p + 2, run_end(s, p + 2, CharClass::NotNewline));
            if p < s.len() && s[p] == '(' {
                if p + 1 < s.len() && s[p + 1] == '\'' && j >= 0 {
                    Some((name, split_items(s.subrange(p + 2, j))))
                } else if paren_in(s, p + 1, run_end(s, p + 1, CharClass::NotNewline)) {
                    Some((name, Seq::empty()))
                } else {
                    None
                }
            } else {
                None
            }
        },
    }
}

/// The scalar values that the lines of a dump give, a later line overriding an
/// earlier one. A line that reads as a list gives no scalar.
pub open spec fn dump_singles(lines: Seq<Seq<char>>) -> Map<Seq<char>, Seq<char>>
    decreases lines.len(),
{
    if lines.len() == 0 {
        Map::empty()
    } else {
        let m = dump_singles(lines.drop_last());
        let l = lines.last();
        if array_of(l) is Some {
            m
        } else {
            match single_of(l) {
                Some((k, v)) => m.insert(k, v),
                None => m,
            }
        }
    }
}

/// The list values that the lines of a dump give, a later line overriding an
/// earlier one.
pub open spec fn dump_arrays(lines: Seq<Seq<char>>) -> Map<Seq<char>, Seq<Seq<char>>>
    decreases lines.len(),
{
    if lines.len() == 0 {
        Map::empty()
    } else {
        let m = dump_arrays(lines.drop_last());
        match array_of(lines.last()) {
            Some((k, v)) => m.insert(k, v),
            None => m,
        }
    }
}

/// Of the lines of a dump that give a scalar for `name`, the last one decides its
/// value.
pub proof fn lemma_later_scalar_wins(lines: Seq<Seq<char>>, i: int, name: Seq<char>, v: Seq<char>)
    requires
        0 <= i < lines.len(),
        array_of(lines[i]) is None,
        single_of(lines[i]) == Some((name, v)),
        forall|j: int|
            i < j < lines.len() ==> array_of(#[trigger] lines[j]) is Some || !(single_of(lines[j]) matches Some(
                (k, _),
            ) && k == name),
    ensures
        dump_singles(lines).contains_key(name),
        dump_singles(lines)[name] == v,
    decreases lines.len(),
{
    if i < lines.len() - 1 {
        let d = lines.drop_last();
        assert forall|j: int|
            i < j < d.len() implies array_of(#[trigger] d[j]) is Some || !(single_of(d[j]) matches Some(
                (k, _),
            ) && k == name) by {
            assert(d[j] == lines[j]);
        }
        lemma_later_scalar_wins(d, i, name, v);
        assert(lines[lines.len() - 1] == lines.last());
    }
}

/// Of the lines of a dump that give a list for `name`, the last one decides its
/// value.
pub proof fn lemma_later_list_wins(lines: Seq<Seq<char>>, i: int, name: Seq<char>, v: Seq<Seq<char>>)
    requires
        0 <= i < lines.len(),
        array_of(lines[i]) == Some((name, v)),
        forall|j: int|
            i < j < lines.len() ==> !(array_of(#[trigger] lines[j]) matches Some((k, _)) && k == name),
    ensures
        dump_arrays(lines).contains_key(name),
        dump_arrays(lines)[name] == v,
    decreases lines.len(),
{
    if i < lines.len() - 1 {
        let d = lines.drop_last();
        assert forall|j: int| i < j < d.len() implies !(array_of(#[trigger] d[j]) matches Some((k, _)) && k
            == name) by {
            assert(d[j] == lines[j]);
        }
        lemma_later_list_wins(d, i, name, v);
        assert(lines[lines.len() - 1] == lines.last());
    }
}

/// A run of class `k` that stops at `e` has length `e - i`.
proof fn lemma_run_len(s: Seq<char>, i: int, e: int, k: CharClass)
    requires
        0 <= i <= e <= s.len(),
        forall|t: int| i <= t < e ==> in_class(#[trigger] s[t], k),
        e == s.len() || !in_class(s[e], k),
    ensures
        run_len(s, i, k) == e - i,
    decreases e - i,
{
    if i < e {
        lemma_run_len(s, i + 1, e, k);
    }
}

/// A variable name: one or more letters or underscores.
pub open spec fn is_name(name: Seq<char>) -> bool {
    name.len() > 0 && forall|t: int| 0 <= t < name.len() ==> is_name_char(#[trigger] name[t])
}

pub open spec fn quoted_line(name: Seq<char>, v: Seq<char>) -> Seq<char> {
    "set "@ + name + " = '"@ + v + "'"@
}

pub open spec fn bare_line(name: Seq<char>, v: Seq<char>) -> Seq<char> {
    "set "@ + name + " = "@ + v
}

pub open spec fn empty_line(name: Seq<char>) -> Seq<char> {
    "set "@ + name + " ="@
}

/// `set NAME = 'V'` gives the scalar `V`, for any `V` without a line feed, quotes
/// inside it included.
pub proof fn lemma_quoted_scalar(name: Seq<char>, v: Seq<char>)
    requires
        is_name(name),
        forall|t: int| 0 <= t < v.len() ==> #[trigger] v[t] != '\n',
    ensures
        array_of(quoted_line(name, v)) is None,
        single_of(quoted_line(name, v)) == Some((name, v)),
{
    reveal_strlit("set ");
    reveal_strlit(" = '");
    reveal_strlit("'");
    let s = quoted_line(name, v);
    let l = name.len() as int;
    assert(s.len() == 9 + l + v.len());
    assert(s[0] == 's' && s[1] == 'e' && s[2] == 't' && s[3] == ' ');
    assert forall|t: int| 4 <= t < 4 + l implies in_class(#[trigger] s[t], CharClass::Name) by {
        assert(s[t] == name[t - 4]);
    }
    assert(s[4] == name[0]);
    assert(s[4 + l] == ' ' && s[5 + l] == '=' && s[6 + l] == ' ' && s[7 + l] == '\'');
    assert(s[8 + l + v.len()] == '\'');
    assert forall|t: int| 8 + l <= t < s.len() implies in_class(#[trigger] s[t], CharClass::NotNewline) by {
        if t < 8 + l + v.len() {
            assert(s[t] == v[t - 8 - l]);
        }
    }
    lemma_run_len(s, 3, 4, CharClass::Space);
    lemma_run_len(s, 4, 4 + l, CharClass::Name);
    lemma_run_len(s, 4 + l, 5 + l, CharClass::Space);
    lemma_run_len(s, 6 + l, 7 + l, CharClass::Space);
    lemma_run_len(s, 8 + l, s.len() as int, CharClass::NotNewline);
    assert(s.subrange(4, 4 + l) =~= name);
    assert(s.subrange(8 + l, s.len() - 1) =~= v);
    if v.len() > 0 {
        assert(last_quote(s, 9 + l, s.len() as int) == s.len() - 1);
    }
}

/// `set NAME = V` gives the scalar `V`, for any `V` of one or more characters
/// that are neither white space nor quotes. Unless `V` starts with `(`, the line
/// is no list.
pub proof fn lemma_bare_scalar(name: Seq<char>, v: Seq<char>)
    requires
        is_name(name),
        v.len() > 0,
        forall|t: int| 0 <= t < v.len() ==> in_class(#[trigger] v[t], CharClass::Plain),
    ensures
        v[0] != '(' ==> array_of(bare_line(name, v)) is None,
        single_of(bare_line(name, v)) == Some((name, v)),
{
    reveal_strlit("set ");
    reveal_strlit(" = ");
    let s = bare_line(name, v);
    let l = name.len() as int;
    assert(s.len() == 7 + l + v.len());
    assert(s[0] == 's' && s[1] == 'e' && s[2] == 't' && s[3] == ' ');
    assert forall|t: int| 4 <= t < 4 + l implies in_class(#[trigger] s[t], CharClass::Name) by {
        assert(s[t] == name[t - 4]);
    }
    assert(s[4] == name[0]);
    assert(s[4 + l] == ' ' && s[5 + l] == '=' && s[6 + l] == ' ');
    assert forall|t: int| 7 + l <= t < s.len() implies in_class(#[trigger] s[t], CharClass::Plain) by {
        assert(s[t] == v[t - 7 - l]);
    }
    assert(s[7 + l] == v[0]);
    lemma_run_len(s, 3, 4, CharClass::Space);
    lemma_run_len(s, 4, 4 + l, CharClass::Name);
    lemma_run_len(s, 4 + l, 5 + l, CharClass::Space);
    lemma_run_len(s, 6 + l, 7 + l, CharClass::Space);
    lemma_run_len(s, 7 + l, s.len() as int, CharClass::Plain);
    assert(s.subrange(4, 4 + l) =~= name);
    assert(s.subrange(7 + l, s.len() as int) =~= v);
}

/// `set NAME =` gives the empty scalar, and is no list.
pub proof fn lemma_empty_scalar(name: Seq<char>)
    requires
        is_name(name),
    ensures
        array_of(empty_line(name)) is None,
        single_of(empty_line(name)) == Some((name, Seq::<char>::empty())),
{
    reveal_strlit("set ");
    reveal_strlit(" =");
    let s = empty_line(name);
    let l = name.len() as int;
    assert(s.len() == 6 + l);
    assert(s[0] == 's' && s[1] == 'e' && s[2] == 't' && s[3] == ' ');
    assert forall|t: int| 4 <= t < 4 + l implies in_class(#[trigger] s[t], CharClass::Name) by {
        assert(s[t] == name[t - 4]);
    }
    assert(s[4] == name[0]);
    assert(s[4 + l] == ' ' && s[5 + l] == '=');
    lemma_run_len(s, 3, 4, CharClass::Space);
    lemma_run_len(s, 4, 4 + l, CharClass::Name);
    lemma_run_len(s, 4 + l, 5 + l, CharClass::Space);
    lemma_run_len(s, 6 + l, 6 + l, CharClass::Space);
    assert(s.subrange(4, 4 + l) =~= name);
}

/// Items written as a list body: each between quotes, one space between them,
/// without the outermost two quotes.
pub open spec fn joined(items: Seq<Seq<char>>) -> Seq<char>
    decreases items.len(),
{
    if items.len() == 0 {
        Seq::empty()
    } else if items.len() == 1 {
        items[0]
    } else {
        items[0] + "' '"@ + joined(items.drop_first())
    }
}

pub open spec fn list_line(name: Seq<char>, items: Seq<Seq<char>>) -> Seq<char> {
    "set "@ + name + " = ('"@ + joined(items) + "')"@
}

pub open spec fn empty_list_line(name: Seq<char>) -> Seq<char> {
    "set "@ + name + " = ()"@
}

/// An item of a list: no quote and no line feed in it.
pub open spec fn is_item(v: Seq<char>) -> bool {
    forall|t: int| 0 <= t < v.len() ==> #[trigger] v[t] != '\'' && v[t] != '\n'
}

proof fn lemma_no_sep(t: Seq<char>, i: int, e: int)
    requires
        0 <= i <= e <= t.len(),
        forall|m: int| i <= m < e ==> #[trigger] t[m] != '\'',
    ensures
        next_sep_off(t, i) == (e - i) + next_sep_off(t, e),
    decreases e - i,
{
    if i < e {
        lemma_no_sep(t, i + 1, e);
    }
}

proof fn lemma_split_joined(pre: Seq<char>, items: Seq<Seq<char>>)
    requires
        items.len() > 0,
        forall|n: int| 0 <= n < items.len() ==> is_item(#[trigger] items[n]),
    ensures
        split_from(pre + joined(items), pre.len() as int) == items,
    decreases items.len(),
{
    reveal_strlit("' '");
    let t = pre + joined(items);
    let p = pre.len() as int;
    let a = items[0].len() as int;
    let first = items[0];
    assert(is_item(first));
    if items.len() == 1 {
        assert forall|m: int| p <= m < t.len() implies #[trigger] t[m] != '\'' by {
            assert(t[m] == first[m - p]);
        }
        lemma_no_sep(t, p, t.len() as int);
        assert(t.subrange(p, t.len() as int) =~= first);
        assert(seq![first] =~= items);
    } else {
        let rest = items.drop_first();
        let pre2 = pre + first + "' '"@;
        assert(t =~= pre2 + joined(rest));
        assert forall|m: int| p <= m < p + a implies #[trigger] t[m] != '\'' by {
            assert(t[m] == first[m - p]);
        }
        lemma_no_sep(t, p, p + a);
        assert(t[p + a] == '\'' && t[p + a + 1] == ' ' && t[p + a + 2] == '\'');
        lemma_run_len(t, p + a + 1, p + a + 2, CharClass::Space);
        assert(sep_len(t, p + a) == 3);
        assert(next_sep_off(t, p + a) == 0);
        assert forall|n: int| 0 <= n < rest.len() implies is_item(#[trigger] rest[n]) by {
            assert(rest[n] == items[n + 1]);
        }
        lemma_split_joined(pre2, rest);
        assert(t.subrange(p, p + a) =~= first);
        assert(seq![first] + rest =~= items);
    }
}

/// `set NAME = ('a' 'b' ...)` gives the list of its items in order, for items
/// without quotes or line feeds.
pub proof fn lemma_quoted_list(name: Seq<char>, items: Seq<Seq<char>>)
    requires
        is_name(name),
        items.len() > 0,
        forall|n: int| 0 <= n < items.len() ==> is_item(#[trigger] items[n]),
    ensures
        array_of(list_line(name, items)) == Some((name, items)),
{
    reveal_strlit("set ");
    reveal_strlit(" = ('");
    reveal_strlit("')");
    let j = joined(items);
    let s = list_line(name, items);
    let l = name.len() as int;
    assert(s.len() == 11 + l + j.len());
    assert(s[0] == 's' && s[1] == 'e' && s[2] == 't' && s[3] == ' ');
    assert forall|t: int| 4 <= t < 4 + l implies in_class(#[trigger] s[t], CharClass::Name) by {
        assert(s[t] == name[t - 4]);
    }
    assert(s[4] == name[0]);
    assert(s[4 + l] == ' ' && s[5 + l] == '=' && s[6 + l] == ' ' && s[7 + l] == '(' && s[8 + l]
        == '\'');
    assert(s[9 + l + j.len()] == '\'' && s[10 + l + j.len()] == ')');
    lemma_joined_no_newline(items);
    assert forall|t: int| 9 + l <= t < s.len() implies in_class(#[trigger] s[t], CharClass::NotNewline) by {
        if t < 9 + l + j.len() {
            assert(s[t] == j[t - 9 - l]);
        }
    }
    lemma_run_len(s, 3, 4, CharClass::Space);
    lemma_run_len(s, 4, 4 + l, CharClass::Name);
    lemma_run_len(s, 4 + l, 5 + l, CharClass::Space);
    lemma_run_len(s, 6 + l, 7 + l, CharClass::Space);
    lemma_run_len(s, 9 + l, s.len() as int, CharClass::NotNewline);
    lemma_run_len(s, s.len() - 1, s.len() - 1, CharClass::Space);
    assert(!closes_list(s, s.len() - 1));
    assert(closes_list(s, s.len() - 2));
    assert(last_close(s, 9 + l, s.len() - 1) == s.len() - 2);
    assert(last_close(s, 9 + l, s.len() as int) == s.len() - 2);
    assert(s.subrange(4, 4 + l) =~= name);
    assert(s.subrange(9 + l, s.len() - 2) =~= j);
    lemma_split_joined(Seq::empty(), items);
    assert(Seq::<char>::empty() + j =~= j);
}

proof fn lemma_joined_no_newline(items: Seq<Seq<char>>)
    requires
        forall|n: int| 0 <= n < items.len() ==> is_item(#[trigger] items[n]),
    ensures
        forall|t: int| 0 <= t < joined(items).len() ==> #[trigger] joined(items)[t] != '\n',
    decreases items.len(),
{
    reveal_strlit("' '");
    if items.len() == 1 {
        assert(is_item(items[0]));
    } else if items.len() > 1 {
        let rest = items.drop_first();
        assert forall|n: int| 0 <= n < rest.len() implies is_item(#[trigger] rest[n]) by {
            assert(rest[n] == items[n + 1]);
        }
        lemma_joined_no_newline(rest);
        assert(is_item(items[0]));
        let j = joined(items);
        let a = items[0].len() as int;
        assert forall|t: int| 0 <= t < j.len() implies #[trigger] j[t] != '\n' by {
            if t < a {
                assert(j[t] == items[0][t]);
            } else if t >= a + 3 {
                assert(j[t] == joined(rest)[t - a - 3]);
            }
        }
    }
}

/// `set NAME = ()` gives the empty list.
pub proof fn lemma_empty_list(name: Seq<char>)
    requires
        is_name(name),
    ensures
        array_of(empty_list_line(name)) == Some((name, Seq::<Seq<char>>::empty())),
{
    reveal_strlit("set ");
    reveal_strlit(" = ()");
    let s = empty_list_line(name);
    let l = name.len() as int;
    assert(s.len() == 9 + l);
    assert(s[0] == 's' && s[1] == 'e' && s[2] == 't' && s[3] == ' ');
    assert forall|t: int| 4 <= t < 4 + l implies in_class(#[trigger] s[t], CharClass::Name) by {
        assert(s[t] == name[t - 4]);
    }
    assert(s[4] == name[0]);
    assert(s[4 + l] == ' ' && s[5 + l] == '=' && s[6 + l] == ' ' && s[7 + l] == '(' && s[8 + l]
        == ')');
    lemma_run_len(s, 3, 4, CharClass::Space);
    lemma_run_len(s, 4, 4 + l, CharClass::Name);
    lemma_run_len(s, 4 + l, 5 + l, CharClass::Space);
    lemma_run_len(s, 6 + l, 7 + l, CharClass::Space);
    lemma_run_len(s, 8 + l, s.len() as int, CharClass::NotNewline);
    assert(s.subrange(4, 4 + l) =~= name);
}

fn class_holds(c: char, k: CharClass) -> (r: bool)
    ensures
        r == in_class(c, k),
{
    let u = c as u32;
    match k {
        CharClass::Space => (9 <= u && u <= 13) || u == 32 || u == 0x85 || u == 0xa0 || u == 0x1680
            || (0x2000 <= u && u <= 0x200a) || u == 0x2028 || u == 0x2029 || u == 0x202f || u
            == 0x205f || u == 0x3000,
        CharClass::Name => (65 <= u && u <= 90) || (97 <= u && u <= 122) || u == 95,
        CharClass::Plain => !((9 <= u && u <= 13) || u == 32 || u == 0x85 || u == 0xa0 || u
            == 0x1680 || (0x2000 <= u && u <= 0x200a) || u == 0x2028 || u == 0x2029 || u
            == 0x202f || u == 0x205f || u == 0x3000) && c != '\'',
        CharClass::NotNewline => c != '\n',
        CharClass::NotEquals => c != '=',
    }
}

/// End of the run of class `k` in `s` that starts at `i`.
pub(crate) fn scan_run(s: &str, len: usize, i: usize, k: CharClass) -> (e: usize)
    requires
        len == s@.len(),
        i <= len,
    ensures
        e == run_end(s@, i as int, k),
        i <= e <= len,
{
    let mut e = i;
    while e < len && class_holds(s.get_char(e), k)
        invariant
            len == s@.len(),
            i <= e <= len,
            run_len(s@, i as int, k) == (e - i) + run_len(s@, e as int, k),
        decreases len - e,
    {
        e = e + 1;
    }
    e
}

fn find_last_quote(s: &str, len: usize, lo: usize, hi: usize) -> (r: Option<usize>)
    requires
        len == s@.len(),
        lo <= hi <= len,
    ensures
        match r {
            Some(j) => j == last_quote(s@, lo as int, hi as int) && lo <= j < hi,
            None => last_quote(s@, lo as int, hi as int) < 0,
        },
{
    let mut h = hi;
    while h > lo && s.get_char(h - 1) != '\''
        invariant
            len == s@.len(),
            lo <= h <= hi <= len,
            last_quote(s@, lo as int, hi as int) == last_quote(s@, lo as int, h as int),
        decreases h,
    {
        h = h - 1;
    }
    if h > lo {
        Some(h - 1)
    } else {
        None
    }
}

fn read_lhs(s: &str, len: usize, strict: bool) -> (r: Option<(usize, usize, usize)>)
    requires
        len == s@.len(),
    ensures
        match r {
            Some((b, n, v)) => lhs(s@, strict) == Some((b as int, n as int, v as int)) && b <= n
                <= v <= len,
            None => lhs(s@, strict) is None,
        },
{
    if len < 3 || s.get_char(0) != 's' || s.get_char(1) != 'e' || s.get_char(2) != 't' {
        return None;
    }
    let b = scan_run(s, len, 3, CharClass::Space);
    let n = scan_run(s, len, b, CharClass::Name);
    let c = scan_run(s, len, n, CharClass::Space);
    if b == 3 || n == b || c >= len || s.get_char(c) != '=' {
        return None;
    }
    let v = scan_run(s, len, c + 1, CharClass::Space);
    if strict && (c == n || v == c + 1) {
        return None;
    }
    Some((b, n, v))
}

fn substring(s: &str, from: usize, to: usize) -> (r: String)
    requires
        from <= to <= s@.len(),
    ensures
        r@ == s@.subrange(from as int, to as int),
{
    String::from_str(s.substring_char(from, to))
}

fn closes_list_at(s: &str, len: usize, j: usize) -> (r: bool)
    requires
        len == s@.len(),
        j < len,
    ensures
        r == closes_list(s@, j as int),
{
    if s.get_char(j) != '\'' {
        return false;
    }
    let e = scan_run(s, len, j + 1, CharClass::Space);
    e < len && s.get_char(e) == ')'
}

fn find_last_close(s: &str, len: usize, lo: usize, hi: usize) -> (r: Option<usize>)
    requires
        len == s@.len(),
        lo <= hi <= len,
    ensures
        match r {
            Some(j) => j == last_close(s@, lo as int, hi as int) && lo <= j < hi,
            None => last_close(s@, lo as int, hi as int) < 0,
        },
{
    let mut h = hi;
    while h > lo && !closes_list_at(s, len, h - 1)
        invariant
            len == s@.len(),
            lo <= h <= hi <= len,
            last_close(s@, lo as int, hi as int) == last_close(s@, lo as int, h as int),
        decreases h,
    {
        h = h - 1;
    }
    if h > lo {
        Some(h - 1)
    } else {
        None
    }
}

fn find_paren(s: &str, len: usize, lo: usize, hi: usize) -> (r: bool)
    requires
        len == s@.len(),
        lo <= hi <= len,
    ensures
        r == paren_in(s@, lo as int, hi as int),
{
    let mut k = lo;
    while k < hi && s.get_char(k) != ')'
        invariant
            len == s@.len(),
            lo <= k <= hi <= len,
            forall|m: int| lo <= m < k ==> s@[m] != ')',
        decreases hi - k,
    {
        k = k + 1;
    }
    if k < hi {
        assert(s@[k as int] == ')');
        true
    } else {
        false
    }
}

fn separator_at(t: &str, len: usize, i: usize) -> (r: usize)
    requires
        len == t@.len(),
        i < len,
    ensures
        r == sep_len(t@, i as int),
        r > 0 ==> i + r <= len,
{
    if t.get_char(i) != '\'' {
        return 0;
    }
    let e = scan_run(t, len, i + 1, CharClass::Space);
    if e > i + 1 && e < len && t.get_char(e) == '\'' {
        e - i + 1
    } else {
        0
    }
}

/// Cuts a list body into its items.
fn split_list(t: &str) -> (r: Vec<String>)
    ensures
        r.deep_view() == split_items(t@),
{
    let len = t.unicode_len();
    let mut items: Vec<String> = Vec::new();
    let mut start: usize = 0;
    loop
        invariant
            len == t@.len(),
            start <= len,
            items.deep_view() + split_from(t@, start as int) == split_items(t@),
        decreases len - start,
    {
        let mut k = start;
        while k < len && separator_at(t, len, k) == 0
            invariant
                len == t@.len(),
                start <= k <= len,
                next_sep_off(t@, start as int) == (k - start) + next_sep_off(t@, k as int),
            decreases len - k,
        {
            k = k + 1;
        }
        let w = if k < len {
            separator_at(t, len, k)
        } else {
            0
        };
        let ghost old_items = items.deep_view();
        items.push(substring(t, start, k));
        if w == 0 {
            assert(items.deep_view() == old_items + split_from(t@, start as int));
            return items;
        }
        assert(items.deep_view() + split_from(t@, (k + w) as int) == old_items + split_from(
            t@,
            start as int,
        ));
        start = k + w;
    }
}

impl Genesis {
    /// Reads a scalar assignment `set NAME = 'VALUE'`, `set NAME = VALUE` or
    /// `set NAME =`.
    pub fn parse_single_value(line: &String) -> (r: Option<(String, String)>)
        ensures
            r.deep_view() == single_of(line@),
    {
        let s = line.as_str();
        let len = s.unicode_len();
        match read_lhs(s, len, false) {
            None => None,
            Some((b, n, v)) => {
                let name = substring(s, b, n);
                if v < len && s.get_char(v) == '\'' {
                    let lim = scan_run(s, len, v + 1, CharClass::NotNewline);
                    if v + 1 < lim {
                        if let Some(j) = find_last_quote(s, len, v + 2, lim) {
                            return Some((name, substring(s, v + 1, j)));
                        }
                    }
                }
                if v < len && class_holds(s.get_char(v), CharClass::Plain) {
                    let e = scan_run(s, len, v, CharClass::Plain);
                    Some((name, substring(s, v, e)))
                } else {
                    Some((name, String::new()))
                }
            },
        }
    }
    /// Reads a list assignment `set NAME = ('a' 'b' ...)` or `set NAME = ()`.
    pub fn parse_array_value(line: &String) -> (r: Option<(String, Vec<String>)>)
        ensures
            r.deep_view() == array_of(line@),
    {
        let s = line.as_str();
        let len = s.unicode_len();
        match read_lhs(s, len, true) {
            None => None,
            Some((b, n, p)) => {
                if p >= len || s.get_char(p) != '(' {
                    return None;
                }
                let name = substring(s, b, n);
                if p + 1 < len && s.get_char(p + 1) == '\'' {
                    let lim = scan_run(s, len, p + 2, CharClass::NotNewline);
                    if let Some(j) = find_last_close(s, len, p + 2, lim) {
                        let body = substring(s, p + 2, j);
                        return Some((name, split_list(body.as_str())));
                    }
                }
                let lim = scan_run(s, len, p + 1, CharClass::NotNewline);
                if find_paren(s, len, p + 1, lim) {
                    Some((name, Vec::new()))
                } else {
                    None
                }
            },
        }
    }
}

} // verus!
