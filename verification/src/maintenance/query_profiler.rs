//! Index recommendations derived from slow queries.
//!
//! Reading `pg_stat_statements` and creating indexes are the caller's I/O;
//! this module decides which indexes to suggest and the SQL that creates them.

use vstd::prelude::*;
use crate::text::{owned, append, concat2, chars_of, string_from_chars, str_eq, white_space, is_white_space, is_digit,
    ascii_lower};
use crate::char_class::{word_char, is_word_char};

verus! {

// ── The clauses read from a query ───────────────────────────────────────────
//
// A query's `FROM` table is what `(?i)\bFROM\s+([a-zA-Z_][\w\.]*)(?:\s|$)`
// captures at its leftmost match, and its equality columns are what
// `(?i)(?:WHERE|AND|OR)\s+([a-zA-Z_][\w\.]*)\s*=\s*[$]?[0-9]+(?:\b|\s)`
// captures over successive non-overlapping matches. They are stated here as
// scans over the characters: `\s` is Unicode white space, `\w` a word
// character, and each repetition takes as much as it can (no shorter run can
// be followed by what comes next).

/// A character that may start a name: an ASCII letter or `_`, or a
/// character that folds to an ASCII letter (`ſ`, the Kelvin sign).
pub open spec fn name_start(c: char) -> bool {
    ('a' <= c && c <= 'z') || ('A' <= c && c <= 'Z') || c == '_' || c == '\u{17f}' || c == '\u{212a}'
}

/// A character that may continue a name: a word character or `.`.
pub open spec fn name_char(c: char) -> bool {
    word_char(c) || c == '.'
}

/// The end of the run of name characters from `i`.
pub open spec fn name_end(q: Seq<char>, i: int) -> int
    decreases q.len() - i,
{
    if 0 <= i < q.len() && name_char(q[i]) { name_end(q, i + 1) } else { i }
}

/// The end of the run of white space from `i`.
pub open spec fn space_end(q: Seq<char>, i: int) -> int
    decreases q.len() - i,
{
    if 0 <= i < q.len() && white_space(q[i]) { space_end(q, i + 1) } else { i }
}

/// The end of the run of ASCII digits from `i`.
pub open spec fn digits_end(q: Seq<char>, i: int) -> int
    decreases q.len() - i,
{
    if 0 <= i < q.len() && is_digit(q[i]) { digits_end(q, i + 1) } else { i }
}

/// The keyword `kw` occurs at `i`, ASCII letters in either case.
pub open spec fn keyword_at(q: Seq<char>, i: int, kw: Seq<char>) -> bool {
    0 <= i && i + kw.len() <= q.len() && forall|k: int| 0 <= k < kw.len() ==> ascii_lower(#[trigger] q[i + k]) == ascii_lower(kw[k])
}

/// The table named by a `FROM` clause starting at `p`, as its start and end.
pub open spec fn from_clause_at(q: Seq<char>, p: int) -> Option<(int, int)> {
    let j = space_end(q, p + 4);
    let e = name_end(q, j + 1);
    if (p == 0 || !word_char(q[p - 1])) && keyword_at(q, p, "from"@) && j > p + 4 && j < q.len()
        && name_start(q[j]) && (e == q.len() || white_space(q[e])) {
        Some((j, e))
    } else {
        None
    }
}

/// The first `FROM` clause at or after `p`.
pub open spec fn first_from_clause(q: Seq<char>, p: int) -> Option<(int, int)>
    decreases q.len() + 1 - p,
{
    if p < 0 || p > q.len() {
        None
    } else {
        match from_clause_at(q, p) {
            Some(m) => Some(m),
            None => first_from_clause(q, p + 1),
        }
    }
}

/// The table of a query's first `FROM` clause; none when it has none.
pub open spec fn from_table(q: Seq<char>) -> Option<Seq<char>> {
    match first_from_clause(q, 0) {
        Some(m) => Some(q.subrange(m.0, m.1)),
        None => None,
    }
}

/// The length of the keyword (`WHERE`, `AND` or `OR`) at `p`, or 0.
pub open spec fn connective_len(q: Seq<char>, p: int) -> int {
    if keyword_at(q, p, "where"@) { 5 } else if keyword_at(q, p, "and"@) { 3 } else if keyword_at(q, p, "or"@) { 2 } else { 0 }
}

/// A comparison `name = [$]digits` after a keyword starting at `p`: the
/// name's start and end, and where the comparison ends.
pub open spec fn equality_at(q: Seq<char>, p: int) -> Option<(int, int, int)> {
    let a = p + connective_len(q, p);
    let j = space_end(q, a);
    let e = name_end(q, j + 1);
    let s1 = space_end(q, e);
    let s2 = space_end(q, s1 + 1);
    let d = if s2 < q.len() && q[s2] == '$' { s2 + 1 } else { s2 };
    let f = digits_end(q, d);
    if connective_len(q, p) > 0 && j > a && j < q.len() && name_start(q[j]) && s1 < q.len() && q[s1] == '='
        && f > d && (f == q.len() || !word_char(q[f])) {
        Some((j, e, f))
    } else {
        None
    }
}

pub proof fn lemma_run_ends(q: Seq<char>, i: int)
    requires
        0 <= i <= q.len(),
    ensures
        i <= space_end(q, i) <= q.len(),
        i <= name_end(q, i) <= q.len(),
        i <= digits_end(q, i) <= q.len(),
    decreases q.len() - i,
{
    if i < q.len() {
        lemma_run_ends(q, i + 1);
    }
}

pub proof fn lemma_equality_ends(q: Seq<char>, p: int)
    requires
        0 <= p <= q.len(),
        equality_at(q, p) is Some,
    ensures
        p < equality_at(q, p).unwrap().2 <= q.len(),
{
    let a = p + connective_len(q, p);
    lemma_run_ends(q, a);
    let j = space_end(q, a);
    lemma_run_ends(q, j + 1);
    let e = name_end(q, j + 1);
    lemma_run_ends(q, e);
    let s1 = space_end(q, e);
    lemma_run_ends(q, s1 + 1);
    let s2 = space_end(q, s1 + 1);
    let d = if s2 < q.len() && q[s2] == '$' { s2 + 1 } else { s2 };
    lemma_run_ends(q, d);
}

/// The names compared for equality at or after `p`, over successive
/// non-overlapping comparisons.
pub open spec fn equalities_from(q: Seq<char>, p: int) -> Seq<Seq<char>>
    decreases q.len() + 1 - p,
{
    if p < 0 || p > q.len() {
        seq![]
    } else {
        match equality_at(q, p) {
            Some(m) => {
                proof { lemma_equality_ends(q, p); }
                seq![q.subrange(m.0, m.1)] + equalities_from(q, m.2)
            },
            None => equalities_from(q, p + 1),
        }
    }
}

/// The columns compared for equality with a literal or parameter in a
/// query, in order of occurrence.
pub open spec fn equality_columns(q: Seq<char>) -> Seq<Seq<char>> {
    equalities_from(q, 0)
}

fn lower(c: char) -> (r: u32)
    ensures
        r == ascii_lower(c),
{
    if 'A' <= c && c <= 'Z' { (c as u32) + 32 } else { c as u32 }
}

fn keyword_at_exec(q: &[char], i: usize, kw: &str) -> (r: bool)
    ensures
        r == keyword_at(q@, i as int, kw@),
{
    let k = chars_of(kw);
    if i > q.len() || k.len() > q.len() - i {
        return false;
    }
    let mut m: usize = 0;
    while m < k.len()
        invariant
            m <= k.len(),
            k@ == kw@,
            i + k.len() <= q.len(),
            forall|x: int| 0 <= x < m ==> ascii_lower(#[trigger] q@[i + x]) == ascii_lower(k@[x]),
        decreases k.len() - m,
    {
        if lower(q[i + m]) != lower(k[m]) {
            return false;
        }
        assert(ascii_lower(q@[i + m as int]) == ascii_lower(k@[m as int]));
        m += 1;
    }
    true
}

fn space_end_exec(q: &[char], i: usize) -> (r: usize)
    requires
        i <= q.len(),
    ensures
        r == space_end(q@, i as int),
{
    let mut j = i;
    while j < q.len() && is_white_space(q[j])
        invariant
            i <= j <= q.len(),
            space_end(q@, j as int) == space_end(q@, i as int),
        decreases q.len() - j,
    {
        j += 1;
    }
    j
}

fn name_end_exec(q: &[char], i: usize) -> (r: usize)
    requires
        i <= q.len(),
    ensures
        r == name_end(q@, i as int),
{
    let mut j = i;
    while j < q.len() && (is_word_char(q[j]) || q[j] == '.')
        invariant
            i <= j <= q.len(),
            name_end(q@, j as int) == name_end(q@, i as int),
        decreases q.len() - j,
    {
        j += 1;
    }
    j
}

fn digits_end_exec(q: &[char], i: usize) -> (r: usize)
    requires
        i <= q.len(),
    ensures
        r == digits_end(q@, i as int),
{
    let mut j = i;
    while j < q.len() && '0' <= q[j] && q[j] <= '9'
        invariant
            i <= j <= q.len(),
            digits_end(q@, j as int) == digits_end(q@, i as int),
        decreases q.len() - j,
    {
        j += 1;
    }
    j
}

fn name_start_exec(c: char) -> (r: bool)
    ensures
        r == name_start(c),
{
    ('a' <= c && c <= 'z') || ('A' <= c && c <= 'Z') || c == '_' || c == '\u{17f}' || c == '\u{212a}'
}

fn from_clause_at_exec(q: &[char], p: usize) -> (r: Option<(usize, usize)>)
    requires
        p <= q.len(),
    ensures
        match r {
            Some(m) => from_clause_at(q@, p as int) == Some((m.0 as int, m.1 as int)) && m.0 <= m.1 <= q.len(),
            None => from_clause_at(q@, p as int) is None,
        },
{
    if !keyword_at_exec(q, p, "from") {
        proof { reveal_strlit("from"); }
        return None;
    }
    proof { reveal_strlit("from"); }
    if p > 0 && is_word_char(q[p - 1]) {
        return None;
    }
    proof { lemma_run_ends(q@, p + 4); }
    let j = space_end_exec(q, p + 4);
    if j == p + 4 || j >= q.len() || !name_start_exec(q[j]) {
        return None;
    }
    proof { lemma_run_ends(q@, j + 1); }
    let e = name_end_exec(q, j + 1);
    if e < q.len() && !is_white_space(q[e]) {
        return None;
    }
    Some((j, e))
}

fn equality_at_exec(q: &[char], p: usize) -> (r: Option<(usize, usize, usize)>)
    requires
        p <= q.len(),
    ensures
        match r {
            Some(m) => equality_at(q@, p as int) == Some((m.0 as int, m.1 as int, m.2 as int))
                && m.0 <= m.1 <= q.len() && p < m.2 <= q.len(),
            None => equality_at(q@, p as int) is None,
        },
{
    proof {
        reveal_strlit("where");
        reveal_strlit("and");
        reveal_strlit("or");
    }
    let n: usize = if keyword_at_exec(q, p, "where") {
        5
    } else if keyword_at_exec(q, p, "and") {
        3
    } else if keyword_at_exec(q, p, "or") {
        2
    } else {
        0
    };
    if n == 0 {
        return None;
    }
    assert(connective_len(q@, p as int) == n as int);
    let a = p + n;
    proof { lemma_run_ends(q@, a as int); }
    let j = space_end_exec(q, a);
    if j == a || j >= q.len() || !name_start_exec(q[j]) {
        return None;
    }
    proof { lemma_run_ends(q@, j + 1); }
    let e = name_end_exec(q, j + 1);
    proof { lemma_run_ends(q@, e as int); }
    let s1 = space_end_exec(q, e);
    if s1 >= q.len() || q[s1] != '=' {
        return None;
    }
    proof { lemma_run_ends(q@, s1 + 1); }
    let s2 = space_end_exec(q, s1 + 1);
    let d = if s2 < q.len() && q[s2] == '$' { s2 + 1 } else { s2 };
    proof { lemma_run_ends(q@, d as int); }
    let f = digits_end_exec(q, d);
    if f == d || (f < q.len() && is_word_char(q[f])) {
        return None;
    }
    Some((j, e, f))
}

fn slice_string(q: &[char], a: usize, b: usize) -> (r: String)
    requires
        a <= b <= q.len(),
    ensures
        r@ == q@.subrange(a as int, b as int),
{
    let mut out: Vec<char> = Vec::new();
    let mut i = a;
    while i < b
        invariant
            a <= i <= b <= q.len(),
            out@ == q@.subrange(a as int, i as int),
        decreases b - i,
    {
        out.push(q[i]);
        i += 1;
        assert(out@ =~= q@.subrange(a as int, i as int));
    }
    string_from_chars(out.as_slice())
}

/// The table of the query's first `FROM` clause, if any.
pub fn from_clause_table(query: &str) -> (r: Option<String>)
    ensures
        match r {
            Some(t) => from_table(query@) == Some(t@),
            None => from_table(query@).is_none(),
        },
{
    let q = chars_of(query);
    let mut p: usize = 0;
    while p < q.len()
        invariant
            p <= q.len(),
            q@ == query@,
            first_from_clause(q@, 0) == first_from_clause(q@, p as int),
        decreases q.len() - p,
    {
        match from_clause_at_exec(q.as_slice(), p) {
            Some(m) => {
                let (j, e) = m;
                return Some(slice_string(q.as_slice(), j, e));
            },
            None => {},
        }
        p += 1;
    }
    proof {
        assert(from_clause_at(q@, q.len() as int) is None);
        assert(first_from_clause(q@, q.len() + 1) is None);
    }
    None
}

/// The columns compared for equality in the query, in order.
pub fn equality_clause_columns(query: &str) -> (r: Vec<String>)
    ensures
        r@.map_values(|s: String| s@) == equality_columns(query@),
{
    let q = chars_of(query);
    let mut out: Vec<String> = Vec::new();
    let mut p: usize = 0;
    assert(out@.map_values(|s: String| s@) + equalities_from(q@, 0) =~= equalities_from(q@, 0));
    while p < q.len()
        invariant
            p <= q.len(),
            q@ == query@,
            equalities_from(q@, 0) == out@.map_values(|s: String| s@) + equalities_from(q@, p as int),
        decreases q.len() - p,
    {
        match equality_at_exec(q.as_slice(), p) {
            Some(m) => {
                let (j, e, f) = m;
                let ghost before = out@.map_values(|s: String| s@);
                let col = slice_string(q.as_slice(), j, e);
                out.push(col);
                assert(out@.map_values(|s: String| s@) =~= before.push(q@.subrange(j as int, e as int)));
                assert(before + equalities_from(q@, p as int) =~= out@.map_values(|s: String| s@) + equalities_from(q@, f as int));
                p = f;
            },
            None => {
                p += 1;
            },
        }
    }
    proof {
        reveal_strlit("where");
        reveal_strlit("and");
        reveal_strlit("or");
        assert(connective_len(q@, q.len() as int) == 0);
        assert(equalities_from(q@, q.len() + 1) =~= Seq::<Seq<char>>::empty());
        assert(equalities_from(q@, q.len() as int) =~= Seq::<Seq<char>>::empty());
    }
    assert(out@.map_values(|s: String| s@) + equalities_from(q@, p as int) =~= out@.map_values(|s: String| s@));
    out
}

/// A suggested index.
#[derive(Debug, Clone, PartialEq, Eq)]
pub struct IndexSuggestion {
    pub table: String,
    pub columns: Vec<String>,
    pub index_name: String,
    /// The slow query that motivated it.
    pub query: String,
}

/// The part of a possibly qualified name after its last `.`.
pub open spec fn last_segment(s: Seq<char>) -> Seq<char>
    decreases s.len(),
{
    if s.len() == 0 {
        s
    } else if s.last() == '.' {
        seq![]
    } else {
        last_segment(s.drop_last()).push(s.last())
    }
}

/// `s` with every `from` character replaced by `to`.
pub open spec fn replace_char(s: Seq<char>, from: char, to: char) -> Seq<char> {
    s.map_values(|c: char| if c == from { to } else { c })
}

/// Names joined by a separator.
pub open spec fn join(s: Seq<Seq<char>>, sep: Seq<char>) -> Seq<char>
    decreases s.len(),
{
    if s.len() == 0 {
        seq![]
    } else if s.len() == 1 {
        s[0]
    } else {
        join(s.drop_last(), sep) + sep + s.last()
    }
}

/// The distinct elements of `s`, in order of first occurrence.
pub open spec fn distinct(s: Seq<Seq<char>>) -> Seq<Seq<char>>
    decreases s.len(),
{
    if s.len() == 0 {
        s
    } else if distinct(s.drop_last()).contains(s.last()) {
        distinct(s.drop_last())
    } else {
        distinct(s.drop_last()).push(s.last())
    }
}

/// The indexed columns of a query: the last segment of each equality
/// column, each once, in order.
pub open spec fn query_columns(query: Seq<char>) -> Seq<Seq<char>> {
    distinct(equality_columns(query).map_values(|c: Seq<char>| last_segment(c)))
}

/// A suggestion as (table, columns, index name, query).
pub open spec fn suggestion_view(s: IndexSuggestion) -> (Seq<char>, Seq<Seq<char>>, Seq<char>, Seq<char>) {
    (s.table@, s.columns@.map_values(|c: String| c@), s.index_name@, s.query@)
}

/// The suggestion a query leads to, if any: it needs a `FROM` table and at
/// least one equality column.
pub open spec fn suggestion_for(query: Seq<char>) -> Option<(Seq<char>, Seq<Seq<char>>, Seq<char>, Seq<char>)> {
    match from_table(query) {
        Some(t) => if query_columns(query).len() > 0 {
            Some((
                t,
                query_columns(query),
                "idx_"@ + replace_char(t, '.', '_') + "_"@ + join(query_columns(query), "_"@),
                query,
            ))
        } else {
            None
        },
        None => None,
    }
}

/// The identity of a suggestion: its table and columns.
pub open spec fn suggestion_key(t: Seq<char>, cols: Seq<Seq<char>>) -> Seq<char> {
    t + ":"@ + join(cols, ","@)
}

/// The suggestions of slow queries taken in order: a query's suggestion is
/// kept unless one with the same table and columns was kept before.
pub open spec fn suggestions_spec(queries: Seq<Seq<char>>) -> Seq<(Seq<char>, Seq<Seq<char>>, Seq<char>, Seq<char>)>
    decreases queries.len(),
{
    if queries.len() == 0 {
        seq![]
    } else {
        let prev = suggestions_spec(queries.drop_last());
        match suggestion_for(queries.last()) {
            Some(s) => if exists|i: int| 0 <= i < prev.len() && #[trigger] suggestion_key(prev[i].0, prev[i].1) == suggestion_key(s.0, s.1) {
                prev
            } else {
                prev.push(s)
            },
            None => prev,
        }
    }
}

/// The part of `name` after its last `.`.
fn after_last_dot(name: &str) -> (r: String)
    ensures
        r@ == last_segment(name@),
{
    let cs = chars_of(name);
    let mut start: usize = cs.len();
    assert(name@.take(cs.len() as int) =~= name@);
    assert(name@.skip(cs.len() as int) =~= Seq::<char>::empty());
    assert(last_segment(name@) + Seq::<char>::empty() =~= last_segment(name@));
    while start > 0 && cs[start - 1] != '.'
        invariant
            start <= cs.len(),
            cs@ == name@,
            last_segment(name@) == last_segment(name@.take(start as int)) + name@.skip(start as int),
        decreases start,
    {
        proof {
            let t = name@.take(start as int);
            assert(t.drop_last() =~= name@.take(start - 1));
            assert(t.last() == name@[start - 1]);
            assert(seq![name@[start - 1]] + name@.skip(start as int) =~= name@.skip(start - 1));
            assert(last_segment(t) == last_segment(t.drop_last()).push(t.last()));
            assert(last_segment(t.drop_last()).push(t.last()) + name@.skip(start as int)
                =~= last_segment(t.drop_last()) + name@.skip(start - 1));
        }
        start -= 1;
    }
    proof {
        if start > 0 {
            let t = name@.take(start as int);
            assert(t.last() == name@[start - 1]);
        }
        assert(last_segment(name@.take(start as int)) =~= Seq::<char>::empty());
        assert(Seq::<char>::empty() + name@.skip(start as int) =~= name@.skip(start as int));
    }
    let mut out: Vec<char> = Vec::new();
    let mut i = start;
    while i < cs.len()
        invariant
            start <= i <= cs.len(),
            cs@ == name@,
            out@ == name@.subrange(start as int, i as int),
        decreases cs.len() - i,
    {
        out.push(cs[i]);
        i += 1;
        assert(out@ =~= name@.subrange(start as int, i as int));
    }
    assert(name@.subrange(start as int, cs.len() as int) =~= name@.skip(start as int));
    string_from_chars(out.as_slice())
}

/// Joins names with a separator.
fn join_names(names: &Vec<String>, sep: &str) -> (r: String)
    ensures
        r@ == join(names@.map_values(|c: String| c@), sep@),
{
    let ghost ns = names@.map_values(|c: String| c@);
    let mut out = String::new();
    let mut i: usize = 0;
    while i < names.len()
        invariant
            i <= names.len(),
            ns == names@.map_values(|c: String| c@),
            out@ == join(ns.take(i as int), sep@),
        decreases names.len() - i,
    {
        proof {
            assert(ns.take(i + 1).drop_last() =~= ns.take(i as int));
            assert(ns.take(i + 1).last() == ns[i as int]);
        }
        if i > 0 {
            append(&mut out, sep);
        }
        append(&mut out, names[i].as_str());
        proof {
            if i == 0 {
                assert(ns.take(1) =~= seq![ns[0]]);
                assert(out@ =~= ns[0]);
            }
        }
        i += 1;
    }
    assert(ns.take(names.len() as int) =~= ns);
    out
}

/// `name` with every `.` replaced by `_`.
fn dots_to_underscores(name: &str) -> (r: String)
    ensures
        r@ == replace_char(name@, '.', '_'),
{
    let cs = chars_of(name);
    let mut out: Vec<char> = Vec::new();
    let mut i: usize = 0;
    while i < cs.len()
        invariant
            i <= cs.len(),
            cs@ == name@,
            out@ == replace_char(name@.take(i as int), '.', '_'),
        decreases cs.len() - i,
    {
        out.push(if cs[i] == '.' { '_' } else { cs[i] });
        i += 1;
        assert(out@ =~= replace_char(name@.take(i as int), '.', '_'));
    }
    assert(name@.take(cs.len() as int) =~= name@);
    string_from_chars(out.as_slice())
}

/// Whether `v` holds `s`.
fn contains_string(v: &Vec<String>, s: &str) -> (r: bool)
    ensures
        r == v@.map_values(|c: String| c@).contains(s@),
{
    let ghost vs = v@.map_values(|c: String| c@);
    let mut i: usize = 0;
    while i < v.len()
        invariant
            i <= v.len(),
            vs == v@.map_values(|c: String| c@),
            forall|j: int| 0 <= j < i ==> vs[j] != s@,
        decreases v.len() - i,
    {
        if str_eq(v[i].as_str(), s) {
            assert(vs[i as int] == s@);
            return true;
        }
        i += 1;
    }
    false
}

/// The indexed columns of one query.
fn columns_of(query: &str) -> (r: Vec<String>)
    ensures
        r@.map_values(|c: String| c@) == query_columns(query@),
{
    let raw = equality_clause_columns(query);
    let ghost eq = equality_columns(query@);
    let ghost segs = eq.map_values(|c: Seq<char>| last_segment(c));
    let mut cols: Vec<String> = Vec::new();
    let mut i: usize = 0;
    while i < raw.len()
        invariant
            i <= raw.len(),
            raw@.map_values(|s: String| s@) == eq,
            segs == eq.map_values(|c: Seq<char>| last_segment(c)),
            cols@.map_values(|c: String| c@) == distinct(segs.take(i as int)),
        decreases raw.len() - i,
    {
        let c = after_last_dot(raw[i].as_str());
        proof {
            assert(raw@.map_values(|s: String| s@)[i as int] == raw@[i as int]@);
            assert(segs[i as int] == c@);
            assert(segs.take(i + 1).drop_last() =~= segs.take(i as int));
            assert(segs.take(i + 1).last() == c@);
        }
        if !contains_string(&cols, c.as_str()) {
            let ghost before = cols@;
            cols.push(c);
            assert(cols@.map_values(|x: String| x@) =~= before.map_values(|x: String| x@).push(segs[i as int]));
        }
        i += 1;
    }
    assert(segs.take(raw.len() as int) =~= segs);
    cols
}

/// The index suggestions for slow queries, taken in order: for each query
/// with a `FROM` table and equality columns, an index on those columns
/// (their last name segment, each once) named `idx_{table}_{columns}` with
/// dots in the table turned into underscores; a suggestion for a table and
/// columns already suggested is dropped.
pub fn recommend_indexes(queries: &[String]) -> (r: Vec<IndexSuggestion>)
    ensures
        r@.map_values(|s: IndexSuggestion| suggestion_view(s)) == suggestions_spec(queries@.map_values(|q: String| q@)),
{
    let ghost qs = queries@.map_values(|q: String| q@);
    let mut out: Vec<IndexSuggestion> = Vec::new();
    let mut seen: Vec<String> = Vec::new();
    let mut i: usize = 0;
    while i < queries.len()
        invariant
            i <= queries.len(),
            qs == queries@.map_values(|q: String| q@),
            out@.map_values(|s: IndexSuggestion| suggestion_view(s)) == suggestions_spec(qs.take(i as int)),
            seen@.len() == out@.len(),
            forall|j: int| 0 <= j < out@.len() ==> #[trigger] seen@[j]@
                == suggestion_key(suggestion_view(out@[j]).0, suggestion_view(out@[j]).1),
        decreases queries.len() - i,
    {
        let q = queries[i].as_str();
        let ghost prev = suggestions_spec(qs.take(i as int));
        proof {
            assert(qs.take(i + 1).drop_last() =~= qs.take(i as int));
            assert(qs.take(i + 1).last() == q@);
        }
        match from_clause_table(q) {
            Some(table) => {
                let columns = columns_of(q);
                if columns.len() > 0 {
                    let mut key = owned(table.as_str());
                    append(&mut key, ":");
                    append(&mut key, join_names(&columns, ",").as_str());
                    let ghost cv = columns@.map_values(|c: String| c@);
                    let dup = contains_string(&seen, key.as_str());
                    proof {
                        let ov = out@.map_values(|s: IndexSuggestion| suggestion_view(s));
                        let sv = seen@.map_values(|c: String| c@);
                        if dup {
                            let w = choose|w: int| 0 <= w < sv.len() && #[trigger] sv[w] == key@;
                            assert(seen@[w]@ == key@);
                            assert(ov[w] == suggestion_view(out@[w]));
                            assert(suggestion_key(prev[w].0, prev[w].1) == suggestion_key(table@, cv));
                        } else {
                            assert forall|j: int| 0 <= j < prev.len() implies #[trigger] suggestion_key(prev[j].0, prev[j].1) != suggestion_key(table@, cv) by {
                                assert(ov[j] == suggestion_view(out@[j]));
                                assert(sv[j] == seen@[j]@);
                            }
                        }
                    }
                    if !dup {
                        let mut name = owned("idx_");
                        append(&mut name, dots_to_underscores(table.as_str()).as_str());
                        append(&mut name, "_");
                        append(&mut name, join_names(&columns, "_").as_str());
                        let ghost before = out@;
                        let s = IndexSuggestion { table, columns, index_name: name, query: owned(q) };
                        out.push(s);
                        seen.push(key);
                        assert(out@.map_values(|s: IndexSuggestion| suggestion_view(s))
                            =~= before.map_values(|s: IndexSuggestion| suggestion_view(s)).push(suggestion_view(s)));
                    }
                }
            },
            None => {},
        }
        i += 1;
    }
    assert(qs.take(queries.len() as int) =~= qs);
    out
}

/// The statement that creates a suggested index concurrently, unless it
/// exists.
pub fn create_index_sql(s: &IndexSuggestion) -> (r: String)
    ensures
        r@ == "CREATE INDEX CONCURRENTLY IF NOT EXISTS "@ + s.index_name@ + " ON "@ + s.table@ + " ("@
            + join(s.columns@.map_values(|c: String| c@), ", "@) + ")"@,
{
    let mut sql = owned("CREATE INDEX CONCURRENTLY IF NOT EXISTS ");
    append(&mut sql, s.index_name.as_str());
    append(&mut sql, " ON ");
    append(&mut sql, s.table.as_str());
    append(&mut sql, " (");
    append(&mut sql, join_names(&s.columns, ", ").as_str());
    append(&mut sql, ")");
    sql
}

/// No two suggestions share a table and columns.
pub proof fn law_suggestions_distinct(queries: Seq<Seq<char>>, i: int, j: int)
    requires
        0 <= i < j < suggestions_spec(queries).len(),
    ensures
        suggestion_key(suggestions_spec(queries)[i].0, suggestions_spec(queries)[i].1)
            != suggestion_key(suggestions_spec(queries)[j].0, suggestions_spec(queries)[j].1),
    decreases queries.len(),
{
    let prev = suggestions_spec(queries.drop_last());
    if j < prev.len() {
        law_suggestions_distinct(queries.drop_last(), i, j);
    }
}

/// The text after the last `.` of `s` holds no `.`, and is what follows the
/// last `.` of `s` (all of `s` when it has none).
proof fn lemma_last_segment(s: Seq<char>)
    ensures
        !last_segment(s).contains('.'),
        last_segment(s).len() <= s.len(),
        s.subrange(s.len() - last_segment(s).len(), s.len() as int) == last_segment(s),
        last_segment(s).len() == s.len() || s[s.len() - last_segment(s).len() - 1] == '.',
    decreases s.len(),
{
    if s.len() > 0 {
        let t = s.drop_last();
        lemma_last_segment(t);
        if s.last() == '.' {
            assert(s.subrange(s.len() as int, s.len() as int) =~= Seq::<char>::empty());
        } else {
            let c = last_segment(t);
            assert(last_segment(s) == c.push(s.last()));
            assert(s.subrange(s.len() - c.len() - 1, s.len() as int) =~= t.subrange(t.len() - c.len(), t.len() as int).push(s.last()));
            if c.len() < t.len() {
                assert(s[s.len() - c.len() - 2] == t[t.len() - c.len() - 1]);
            }
            assert forall|k: int| 0 <= k < c.len() + 1 implies c.push(s.last())[k] != '.' by {
                if k < c.len() {
                    assert(c.push(s.last())[k] == c[k]);
                    assert(!c.contains('.'));
                }
            }
        }
    }
}

proof fn lemma_distinct_from(s: Seq<Seq<char>>)
    ensures
        forall|k: int| 0 <= k < distinct(s).len() ==> s.contains(#[trigger] distinct(s)[k]),
    decreases s.len(),
{
    if s.len() > 0 {
        let t = s.drop_last();
        lemma_distinct_from(t);
        assert forall|k: int| 0 <= k < distinct(s).len() implies s.contains(#[trigger] distinct(s)[k]) by {
            if k < distinct(t).len() {
                assert(distinct(s)[k] == distinct(t)[k]);
                let w = choose|w: int| 0 <= w < t.len() && t[w] == distinct(t)[k];
                assert(s[w] == t[w]);
            } else {
                assert(distinct(s)[k] == s.last());
                assert(s[s.len() - 1] == s.last());
            }
        }
    }
}

proof fn lemma_suggestions_from(queries: Seq<Seq<char>>)
    ensures
        forall|i: int| 0 <= i < suggestions_spec(queries).len() ==> exists|j: int| 0 <= j < queries.len()
            && (#[trigger] suggestions_spec(queries)[i]).1 == query_columns(queries[j]),
    decreases queries.len(),
{
    if queries.len() > 0 {
        let t = queries.drop_last();
        lemma_suggestions_from(t);
        let prev = suggestions_spec(t);
        assert forall|i: int| 0 <= i < suggestions_spec(queries).len() implies exists|j: int| 0 <= j < queries.len()
            && (#[trigger] suggestions_spec(queries)[i]).1 == query_columns(queries[j]) by {
            if i < prev.len() {
                assert(suggestions_spec(queries)[i] == prev[i]);
                let j = choose|j: int| 0 <= j < t.len() && (#[trigger] prev[i]).1 == query_columns(t[j]);
                assert(queries[j] == t[j]);
            } else {
                assert(queries[queries.len() - 1] == queries.last());
            }
        }
    }
}

/// Every indexed column is a bare column name: it holds no `.`, and it is
/// what follows the last `.` of a column one of the queries compares (the
/// whole of it when it is unqualified).
pub proof fn law_index_columns_unqualified(queries: Seq<Seq<char>>, i: int, k: int)
    requires
        0 <= i < suggestions_spec(queries).len(),
        0 <= k < suggestions_spec(queries)[i].1.len(),
    ensures
        ({
            let c = suggestions_spec(queries)[i].1[k];
            &&& !c.contains('.')
            &&& exists|j: int, e: Seq<char>| #![trigger equality_columns(queries[j]).contains(e)]
                0 <= j < queries.len() && equality_columns(queries[j]).contains(e)
                && c.len() <= e.len() && e.subrange(e.len() - c.len(), e.len() as int) == c
                && (c.len() == e.len() || e[e.len() - c.len() - 1] == '.')
        }),
{
    lemma_suggestions_from(queries);
    let j = choose|j: int| 0 <= j < queries.len() && (#[trigger] suggestions_spec(queries)[i]).1 == query_columns(queries[j]);
    let q = queries[j];
    let segs = equality_columns(q).map_values(|x: Seq<char>| last_segment(x));
    lemma_distinct_from(segs);
    let c = suggestions_spec(queries)[i].1[k];
    assert(distinct(segs)[k] == c);
    let w = choose|w: int| 0 <= w < segs.len() && segs[w] == c;
    let e = equality_columns(q)[w];
    assert(segs[w] == last_segment(e));
    lemma_last_segment(e);
    assert(equality_columns(q).contains(e));
}

} // verus!
