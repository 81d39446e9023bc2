//! What holds of the scan of keyword arguments on every argument list
//! that is written in normal form.

use crate::constructor_parser::{
    clean_key, is_blank, kwarg, kwargs_of, raw_pairs, scan_from, scan_prefix, scan_start,
    scan_step, value_of, values_of, Scan,
};
use crate::import_resolver::SymbolMap;
use crate::records::ValueModel;
use crate::text::{find_char_from, is_space, rfind_char, trim, trim_end, trim_start};
use vstd::prelude::*;

verus! {

/// A character that may stand in a key in normal form.
pub open spec fn key_char(c: char) -> bool {
    !is_space(c) && !is_blank(c) && c != '"' && c != '\'' && c != '=' && c != '(' && c != ')'
        && c != '[' && c != ']' && c != '{' && c != '}' && c != ',' && c != ':'
}

/// A key in normal form: not empty, without white space, quotes,
/// brackets, commas, colons or equals signs.
pub open spec fn plain_key(k: Seq<char>) -> bool {
    k.len() > 0 && forall|i: int| 0 <= i < k.len() ==> key_char(#[trigger] k[i])
}

/// Where a walk over a value stands: the three depths, and whether it is
/// inside a quoted string, and which quote opened it.
pub struct ValueWalk {
    pub paren: int,
    pub bracket: int,
    pub brace: int,
    pub in_string: bool,
    pub quote: char,
}

/// The walk after the character at position `i`: inside a string only
/// the quote that opened it counts, unless a backslash stands before it;
/// outside, a quote opens a string and a delimiter changes its depth.
pub open spec fn walk_step(w: ValueWalk, v: Seq<char>, i: int) -> ValueWalk {
    let c = v[i];
    if w.in_string {
        if c == w.quote && !(i > 0 && v[i - 1] == '\\') {
            ValueWalk { in_string: false, ..w }
        } else {
            w
        }
    } else if c == '"' || c == '\'' {
        ValueWalk { in_string: true, quote: c, ..w }
    } else if c == '(' {
        ValueWalk { paren: w.paren + 1, ..w }
    } else if c == ')' {
        ValueWalk { paren: w.paren - 1, ..w }
    } else if c == '[' {
        ValueWalk { bracket: w.bracket + 1, ..w }
    } else if c == ']' {
        ValueWalk { bracket: w.bracket - 1, ..w }
    } else if c == '{' {
        ValueWalk { brace: w.brace + 1, ..w }
    } else if c == '}' {
        ValueWalk { brace: w.brace - 1, ..w }
    } else {
        w
    }
}

/// The walk before position `n` of a value.
pub open spec fn walk(v: Seq<char>, n: int) -> ValueWalk
    decreases n,
{
    if n <= 0 || n > v.len() {
        ValueWalk { paren: 0, bracket: 0, brace: 0, in_string: false, quote: ' ' }
    } else {
        walk_step(walk(v, n - 1), v, n - 1)
    }
}

/// Outside every delimiter.
pub open spec fn at_top(w: ValueWalk) -> bool {
    w.paren == 0 && w.bracket == 0 && w.brace == 0
}

/// A value with balanced delimiters: not empty; outside quoted strings no
/// closing parenthesis without its opening one and no comma outside
/// delimiters; and at the end every string and every delimiter closed.
pub open spec fn balanced_value(v: Seq<char>) -> bool {
    &&& v.len() > 0
    &&& forall|i: int|
        0 <= i < v.len() && !(#[trigger] walk(v, i)).in_string ==> {
            &&& (v[i] == ')' ==> walk(v, i).paren > 0)
            &&& (v[i] == ',' ==> !at_top(walk(v, i)))
        }
    &&& !walk(v, v.len() as int).in_string
    &&& at_top(walk(v, v.len() as int))
}

/// Pairs in normal form.
pub open spec fn normal_pairs(pairs: Seq<(Seq<char>, Seq<char>)>) -> bool {
    forall|i: int|
        0 <= i < pairs.len() ==> plain_key((#[trigger] pairs[i]).0) && balanced_value(pairs[i].1)
}

/// One pair as it is written: the key, an equals sign, the value.
pub open spec fn pair_text(p: (Seq<char>, Seq<char>)) -> Seq<char> {
    p.0 + seq!['='] + p.1
}

/// A run of the blanks that may stand before a key.
pub open spec fn blanks(g: Seq<char>) -> bool {
    forall|i: int| 0 <= i < g.len() ==> is_blank(#[trigger] g[i])
}

/// One run of blanks for each pair.
pub open spec fn gaps_for(gaps: Seq<Seq<char>>, pairs: Seq<(Seq<char>, Seq<char>)>) -> bool {
    gaps.len() == pairs.len() && forall|i: int| 0 <= i < gaps.len() ==> blanks(#[trigger] gaps[i])
}

/// The first `n` pairs as they are written: before each pair its run of
/// blanks, between two pairs a comma.
pub open spec fn args_text(pairs: Seq<(Seq<char>, Seq<char>)>, gaps: Seq<Seq<char>>, n: int) -> Seq<
    char,
>
    decreases n,
{
    if n <= 0 || n > pairs.len() || n > gaps.len() {
        Seq::empty()
    } else if n == 1 {
        gaps[0] + pair_text(pairs[0])
    } else {
        args_text(pairs, gaps, n - 1) + seq![','] + (gaps[n - 1] + pair_text(pairs[n - 1]))
    }
}

/// A call as it is written: the constructor, then the pairs in
/// parentheses.
pub open spec fn call_text(
    head: Seq<char>,
    pairs: Seq<(Seq<char>, Seq<char>)>,
    gaps: Seq<Seq<char>>,
) -> Seq<char> {
    head + seq!['('] + args_text(pairs, gaps, pairs.len() as int) + seq![')']
}

/// Blanks before a key are passed over.
proof fn lemma_scan_gap(st: Scan, g: Seq<char>, n: int)
    requires
        blanks(g),
        0 <= n <= g.len(),
        st.in_key,
        st.key.len() == 0,
    ensures
        scan_from(st, g, n) == st,
    decreases n,
{
    if n > 0 {
        lemma_scan_gap(st, g, n - 1);
        assert(is_blank(g[n - 1]));
    }
}

proof fn lemma_scan_concat(st: Scan, a: Seq<char>, b: Seq<char>, n: int)
    requires
        0 <= n <= b.len(),
    ensures
        scan_from(st, a + b, a.len() + n) == scan_from(scan_from(st, a, a.len() as int), b, n),
    decreases n,
{
    if n == 0 {
        lemma_scan_prefix_only(st, a, b, a.len() as int);
    } else {
        lemma_scan_concat(st, a, b, n - 1);
        assert((a + b)[a.len() + n - 1] == b[n - 1]);
    }
}

proof fn lemma_scan_prefix_only(st: Scan, a: Seq<char>, b: Seq<char>, n: int)
    requires
        0 <= n <= a.len(),
    ensures
        scan_from(st, a + b, n) == scan_from(st, a, n),
    decreases n,
{
    if n > 0 {
        lemma_scan_prefix_only(st, a, b, n - 1);
        assert((a + b)[n - 1] == a[n - 1]);
    }
}

proof fn lemma_scan_one(st: Scan, c: char)
    ensures
        scan_from(st, seq![c], 1) == scan_step(st, c),
{
    assert(scan_from(st, seq![c], 0) == st);
    assert(seq![c][0] == c);
}

/// The scan of a plain key, from a state that waits for a key.
proof fn lemma_scan_key(st: Scan, k: Seq<char>, n: int)
    requires
        plain_key(k),
        0 <= n <= k.len(),
        st.in_key,
        !st.in_string,
        !st.done,
        st.key.len() == 0,
    ensures
        scan_from(st, k, n) == (Scan { key: k.subrange(0, n), ..st }),
    decreases n,
{
    if n == 0 {
        assert(k.subrange(0, 0) =~= st.key);
    } else {
        lemma_scan_key(st, k, n - 1);
        assert(key_char(k[n - 1]));
        assert(k.subrange(0, n - 1).push(k[n - 1]) =~= k.subrange(0, n));
    }
}

/// The scan of a balanced value, from a state that waits for a value:
/// the scan takes every character into the value and stands where the
/// walk stands.
proof fn lemma_scan_value(st: Scan, v: Seq<char>, n: int)
    requires
        balanced_value(v),
        0 <= n <= v.len(),
        !st.in_key,
        !st.in_string,
        !st.done,
        st.value.len() == 0,
        st.paren == 0,
        st.bracket == 0,
        st.brace == 0,
    ensures
        scan_from(st, v, n) == (Scan {
            value: v.subrange(0, n),
            paren: walk(v, n).paren,
            bracket: walk(v, n).bracket,
            brace: walk(v, n).brace,
            in_string: walk(v, n).in_string,
            quote: scan_from(st, v, n).quote,
            ..st
        }),
        walk(v, n).in_string ==> scan_from(st, v, n).quote == walk(v, n).quote,
    decreases n,
{
    if n == 0 {
        assert(v.subrange(0, 0) =~= st.value);
    } else {
        lemma_scan_value(st, v, n - 1);
        let c = v[n - 1];
        let before = v.subrange(0, n - 1);
        if n - 1 > 0 {
            assert(before.last() == v[n - 2]);
        }
        assert(before.push(c) =~= v.subrange(0, n));
        let w = walk(v, n - 1);
        assert(walk(v, n) == walk_step(w, v, n - 1));
    }
}

proof fn lemma_no_colon(k: Seq<char>)
    requires
        forall|i: int| 0 <= i < k.len() ==> key_char(#[trigger] k[i]),
    ensures
        rfind_char(k, ':') is None,
    decreases k.len(),
{
    if k.len() > 0 {
        assert(key_char(k[k.len() - 1]));
        assert forall|i: int| 0 <= i < k.drop_last().len() implies key_char(
            #[trigger] k.drop_last()[i],
        ) by {
            assert(key_char(k[i]));
        }
        lemma_no_colon(k.drop_last());
    }
}

/// Trimming and cleaning leave a plain key as it is.
proof fn lemma_plain_key_stays(k: Seq<char>)
    requires
        plain_key(k),
    ensures
        trim(k) == k,
        clean_key(k) == k,
{
    assert(key_char(k[0]));
    assert(key_char(k[k.len() - 1]));
    assert(trim_start(k) == k);
    assert(trim_end(k) == k);
    lemma_no_colon(k);
}

/// The scan of one pair as it is written, from a state that waits for a
/// key: the pair is under way, whole.
proof fn lemma_scan_pair(st: Scan, p: (Seq<char>, Seq<char>))
    requires
        plain_key(p.0),
        balanced_value(p.1),
        st.in_key,
        !st.in_string,
        !st.done,
        st.key.len() == 0,
        st.value.len() == 0,
        st.paren == 0,
        st.bracket == 0,
        st.brace == 0,
    ensures
        scan_from(st, pair_text(p), pair_text(p).len() as int) == (Scan {
            key: p.0,
            value: p.1,
            in_key: false,
            quote: scan_from(st, pair_text(p), pair_text(p).len() as int).quote,
            ..st
        }),
{
    let k = p.0;
    let v = p.1;
    let a = k + seq!['='];
    lemma_scan_key(st, k, k.len() as int);
    assert(k.subrange(0, k.len() as int) =~= k);
    let s1 = Scan { key: k, ..st };
    lemma_scan_concat(st, k, seq!['='], 1);
    lemma_scan_one(s1, '=');
    lemma_plain_key_stays(k);
    let s2 = Scan { key: k, in_key: false, ..st };
    assert(scan_step(s1, '=') == s2);
    assert(scan_from(st, a, a.len() as int) == s2);
    lemma_scan_concat(st, a, v, v.len() as int);
    lemma_scan_value(s2, v, v.len() as int);
    assert(v.subrange(0, v.len() as int) =~= v);
    assert(a + v =~= pair_text(p));
}

/// The scan of one pair with the blanks before it.
proof fn lemma_scan_gapped_pair(st: Scan, g: Seq<char>, p: (Seq<char>, Seq<char>))
    requires
        blanks(g),
        plain_key(p.0),
        balanced_value(p.1),
        st.in_key,
        !st.in_string,
        !st.done,
        st.key.len() == 0,
        st.value.len() == 0,
        st.paren == 0,
        st.bracket == 0,
        st.brace == 0,
    ensures
        scan_from(st, g + pair_text(p), (g + pair_text(p)).len() as int) == (Scan {
            key: p.0,
            value: p.1,
            in_key: false,
            quote: scan_from(st, g + pair_text(p), (g + pair_text(p)).len() as int).quote,
            ..st
        }),
{
    lemma_scan_gap(st, g, g.len() as int);
    lemma_scan_concat(st, g, pair_text(p), pair_text(p).len() as int);
    lemma_scan_pair(st, p);
}

/// The scan of the first `n` pairs as they are written: the pairs before
/// the last are stored, the last is under way.
proof fn lemma_scan_args(pairs: Seq<(Seq<char>, Seq<char>)>, gaps: Seq<Seq<char>>, n: int)
    requires
        normal_pairs(pairs),
        gaps_for(gaps, pairs),
        1 <= n <= pairs.len(),
    ensures
        scan_from(
            scan_start(),
            args_text(pairs, gaps, n),
            args_text(pairs, gaps, n).len() as int,
        ) == (Scan {
            key: pairs[n - 1].0,
            value: pairs[n - 1].1,
            in_key: false,
            pairs: pairs.subrange(0, n - 1),
            quote: scan_from(
                scan_start(),
                args_text(pairs, gaps, n),
                args_text(pairs, gaps, n).len() as int,
            ).quote,
            ..scan_start()
        }),
    decreases n,
{
    let p = pairs[n - 1];
    let g = gaps[n - 1];
    assert(plain_key(p.0) && balanced_value(p.1));
    assert(blanks(g));
    if n == 1 {
        lemma_scan_gapped_pair(scan_start(), g, p);
        assert(pairs.subrange(0, 0) =~= scan_start().pairs);
    } else {
        lemma_scan_args(pairs, gaps, n - 1);
        let before = args_text(pairs, gaps, n - 1);
        let q = pairs[n - 2];
        assert(plain_key(q.0) && balanced_value(q.1));
        let s1 = scan_from(scan_start(), before, before.len() as int);
        lemma_scan_concat(scan_start(), before, seq![','], 1);
        lemma_scan_one(s1, ',');
        lemma_plain_key_stays(q.0);
        let s2 = Scan { pairs: pairs.subrange(0, n - 1), quote: s1.quote, ..scan_start() };
        assert(pairs.subrange(0, n - 2).push((q.0, q.1)) =~= pairs.subrange(0, n - 1));
        assert(scan_step(s1, ',') == s2);
        let a = before + seq![','];
        assert(scan_from(scan_start(), a, a.len() as int) == s2);
        let w = g + pair_text(p);
        lemma_scan_concat(scan_start(), a, w, w.len() as int);
        lemma_scan_gapped_pair(s2, g, p);
        assert(a + w =~= args_text(pairs, gaps, n));
    }
}

proof fn lemma_find_open(head: Seq<char>, rest: Seq<char>, i: int)
    requires
        0 <= i <= head.len(),
        forall|j: int| 0 <= j < head.len() ==> head[j] != '(',
    ensures
        find_char_from(head + seq!['('] + rest, '(', i) == Some(head.len() as int),
    decreases head.len() - i,
{
    let s = head + seq!['('] + rest;
    if i < head.len() {
        assert(s[i] == head[i]);
        lemma_find_open(head, rest, i + 1);
    } else {
        assert(s[i] == '(');
    }
}

/// Writing and reading are inverse: a call written from pairs in normal
/// form (plain keys; values with balanced delimiters and closed strings),
/// with an equals sign inside each pair, a comma between two pairs and
/// any blanks before a key, is cut into exactly those pairs, none
/// dropped, none twice, none split at a comma or a parenthesis inside a
/// value. Read the other way: the pairs that the scan gives for such a
/// text, joined again with those separators, are the text.
pub proof fn law_written_pairs_are_read_back(
    head: Seq<char>,
    pairs: Seq<(Seq<char>, Seq<char>)>,
    gaps: Seq<Seq<char>>,
)
    requires
        normal_pairs(pairs),
        gaps_for(gaps, pairs),
        forall|j: int| 0 <= j < head.len() ==> head[j] != '(',
    ensures
        raw_pairs(call_text(head, pairs, gaps)) == Some(pairs),
{
    let n = pairs.len() as int;
    let args = args_text(pairs, gaps, n);
    let rest = args + seq![')'];
    let call = call_text(head, pairs, gaps);
    assert(call =~= head + seq!['('] + rest);
    lemma_find_open(head, rest, 0);
    let p = head.len() as int;
    assert(call.subrange(p + 1, call.len() as int) =~= rest);
    lemma_scan_concat(scan_start(), args, seq![')'], 1);
    if n == 0 {
        assert(scan_from(scan_start(), args, 0) == scan_start());
        lemma_scan_one(scan_start(), ')');
        assert(scan_step(scan_start(), ')').pairs =~= pairs);
    } else {
        lemma_scan_args(pairs, gaps, n);
        let last = pairs[n - 1];
        assert(plain_key(last.0) && balanced_value(last.1));
        let s1 = scan_from(scan_start(), args, args.len() as int);
        lemma_scan_one(s1, ')');
        lemma_plain_key_stays(last.0);
        assert(pairs.subrange(0, n - 1).push((last.0, last.1)) =~= pairs);
        assert(scan_step(s1, ')').pairs == pairs);
    }
    assert(scan_prefix(rest, rest.len() as int).pairs == pairs);
}

/// No two pairs have the same key.
pub open spec fn distinct_keys(pairs: Seq<(Seq<char>, Seq<char>)>) -> bool {
    forall|i: int, j: int| 0 <= i < j < pairs.len() ==> pairs[i].0 != pairs[j].0
}

/// Every value of the pairs can be classified.
pub open spec fn all_classified(
    pairs: Seq<(Seq<char>, Seq<char>)>,
    table: SymbolMap,
    files: Seq<(Seq<char>, Seq<char>)>,
) -> bool {
    forall|i: int| 0 <= i < pairs.len() ==> value_of((#[trigger] pairs[i]).1, table, files) is Ok
}

proof fn lemma_values_of_all(
    pairs: Seq<(Seq<char>, Seq<char>)>,
    table: SymbolMap,
    files: Seq<(Seq<char>, Seq<char>)>,
    n: int,
)
    requires
        all_classified(pairs, table, files),
        0 <= n <= pairs.len(),
    ensures
        values_of(pairs, table, files, n) is Ok,
        values_of(pairs, table, files, n).unwrap().len() == n,
        forall|i: int|
            0 <= i < n ==> (#[trigger] values_of(pairs, table, files, n).unwrap()[i]) == (
                pairs[i].0,
                value_of(pairs[i].1, table, files).unwrap(),
            ),
    decreases n,
{
    if n > 0 {
        lemma_values_of_all(pairs, table, files, n - 1);
        assert(value_of(pairs[n - 1].1, table, files) is Ok);
    }
}

proof fn lemma_kwarg_at(m: Seq<(Seq<char>, ValueModel)>, i: int)
    requires
        0 <= i < m.len(),
        forall|a: int, b: int| 0 <= a < b < m.len() ==> m[a].0 != m[b].0,
    ensures
        kwarg(m, m[i].0) == Some(m[i].1),
    decreases m.len(),
{
    if i < m.len() - 1 {
        let d = m.drop_last();
        assert(d[i] == m[i]);
        assert forall|a: int, b: int| 0 <= a < b < d.len() implies d[a].0 != d[b].0 by {
            assert(d[a] == m[a] && d[b] == m[b]);
        }
        lemma_kwarg_at(d, i);
    }
}

/// The arguments of a written call are its pairs, each with the value
/// that its text stands for: a call written from `n` pairs in normal form
/// whose values can all be classified gives `n` arguments, in order, the
/// value of each being the classification of its text; and where the keys
/// differ, looking up a key gives the value of its pair.
pub proof fn law_written_call_gives_its_values(
    head: Seq<char>,
    pairs: Seq<(Seq<char>, Seq<char>)>,
    gaps: Seq<Seq<char>>,
    table: SymbolMap,
    files: Seq<(Seq<char>, Seq<char>)>,
)
    requires
        normal_pairs(pairs),
        gaps_for(gaps, pairs),
        forall|j: int| 0 <= j < head.len() ==> head[j] != '(',
        all_classified(pairs, table, files),
    ensures
        kwargs_of(call_text(head, pairs, gaps), table, files) is Ok,
        kwargs_of(call_text(head, pairs, gaps), table, files).unwrap().len() == pairs.len(),
        forall|i: int|
            0 <= i < pairs.len() ==> (#[trigger] kwargs_of(
                call_text(head, pairs, gaps),
                table,
                files,
            ).unwrap()[i]) == (pairs[i].0, value_of(pairs[i].1, table, files).unwrap()),
        distinct_keys(pairs) ==> forall|i: int|
            0 <= i < pairs.len() ==> kwarg(
                kwargs_of(call_text(head, pairs, gaps), table, files).unwrap(),
                (#[trigger] pairs[i]).0,
            ) == Some(value_of(pairs[i].1, table, files).unwrap()),
{
    law_written_pairs_are_read_back(head, pairs, gaps);
    lemma_values_of_all(pairs, table, files, pairs.len() as int);
    let m = kwargs_of(call_text(head, pairs, gaps), table, files).unwrap();
    assert(m == values_of(pairs, table, files, pairs.len() as int).unwrap());
    if distinct_keys(pairs) {
        assert forall|i: int| 0 <= i < pairs.len() implies kwarg(m, (#[trigger] pairs[i]).0)
            == Some(value_of(pairs[i].1, table, files).unwrap()) by {
            assert forall|a: int, b: int| 0 <= a < b < m.len() implies m[a].0 != m[b].0 by {
                assert(m[a].0 == pairs[a].0 && m[b].0 == pairs[b].0);
            }
            assert(m[i] == (pairs[i].0, value_of(pairs[i].1, table, files).unwrap()));
            lemma_kwarg_at(m, i);
        }
    }
}

/// A text in double quotes.
pub open spec fn quoted(body: Seq<char>) -> Seq<char> {
    seq!['"'] + body + seq!['"']
}

/// A text that can stand between double quotes as it is: it holds no
/// double quote and no backslash.
pub open spec fn plain_body(body: Seq<char>) -> bool {
    forall|i: int| 0 <= i < body.len() ==> (#[trigger] body[i]) != '"' && body[i] != '\\'
}

proof fn lemma_walk_inside(body: Seq<char>, n: int)
    requires
        plain_body(body),
        1 <= n <= body.len() + 1,
    ensures
        walk(quoted(body), n) == (ValueWalk {
            paren: 0,
            bracket: 0,
            brace: 0,
            in_string: true,
            quote: '"',
        }),
    decreases n,
{
    let v = quoted(body);
    if n == 1 {
        assert(v[0] == '"');
        assert(walk(v, 1) == walk_step(walk(v, 0), v, 0));
    } else {
        lemma_walk_inside(body, n - 1);
        assert(v[n - 1] == body[n - 2]);
        assert(walk(v, n) == walk_step(walk(v, n - 1), v, n - 1));
    }
}

/// A quoted text is a balanced value, whatever commas, parentheses and
/// brackets stand between the quotes.
pub proof fn lemma_quoted_is_balanced(body: Seq<char>)
    requires
        plain_body(body),
    ensures
        balanced_value(quoted(body)),
{
    let v = quoted(body);
    let n = v.len() as int;
    lemma_walk_inside(body, n - 1);
    assert(v[n - 1] == '"');
    if n - 2 > 0 {
        assert(v[n - 2] == body[n - 3]);
    } else {
        assert(v[n - 2] == '"');
    }
    assert(walk(v, n) == walk_step(walk(v, n - 1), v, n - 1));
    assert forall|i: int| 0 <= i < v.len() && !(#[trigger] walk(v, i)).in_string implies {
        &&& (v[i] == ')' ==> walk(v, i).paren > 0)
        &&& (v[i] == ',' ==> !at_top(walk(v, i)))
    } by {
        if i >= 1 {
            lemma_walk_inside(body, i);
        } else {
            assert(v[0] == '"');
        }
    }
}

/// A quoted value is read as one value: whatever commas, parentheses and
/// brackets it holds, the scan does not split it.
pub proof fn law_quoted_value_is_one_value(head: Seq<char>, key: Seq<char>, body: Seq<char>)
    requires
        plain_key(key),
        plain_body(body),
        forall|j: int| 0 <= j < head.len() ==> head[j] != '(',
    ensures
        raw_pairs(head + seq!['('] + key + seq!['='] + quoted(body) + seq![')']) == Some(
            seq![(key, quoted(body))],
        ),
{
    let pairs = seq![(key, quoted(body))];
    let gaps = seq![Seq::<char>::empty()];
    lemma_quoted_is_balanced(body);
    assert(normal_pairs(pairs));
    assert(gaps_for(gaps, pairs));
    law_written_pairs_are_read_back(head, pairs, gaps);
    assert(args_text(pairs, gaps, 1) =~= pair_text(pairs[0]));
    assert(call_text(head, pairs, gaps) =~= head + seq!['('] + key + seq!['='] + quoted(body)
        + seq![')']);
}

} // verus!
