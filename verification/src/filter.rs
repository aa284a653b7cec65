//! Removal of `{ ... }` annotations from PGN movetext.
use vstd::prelude::*;
use crate::text::{self, chars_of, string_of, trim_chars};

verus! {

/// The scanner state of annotation filtering.
pub struct FilterState {
    pub result: Seq<char>,
    pub in_annotation: bool,
    pub depth: int,
    pub prev_was_space: bool,
}

pub open spec fn filter_start() -> FilterState {
    FilterState { result: Seq::empty(), in_annotation: false, depth: 0, prev_was_space: false }
}

/// One character of input: `{` opens (and nests) an annotation, the `}` that
/// brings the depth back to zero closes it and stands for a space, so that
/// the moves on either side stay apart; outside annotations spaces are
/// collapsed and leading spaces dropped, every other character is kept.
pub open spec fn filter_step(st: FilterState, ch: char) -> FilterState {
    if ch == '{' {
        FilterState { in_annotation: true, depth: st.depth + 1, ..st }
    } else if ch == '}' {
        if st.depth - 1 == 0 {
            if !st.prev_was_space && st.result.len() > 0 {
                FilterState {
                    result: st.result.push(' '),
                    in_annotation: false,
                    depth: 0,
                    prev_was_space: true,
                }
            } else {
                FilterState { in_annotation: false, depth: 0, prev_was_space: true, ..st }
            }
        } else {
            FilterState { depth: st.depth - 1, ..st }
        }
    } else if ch == ' ' && !st.in_annotation {
        if !st.prev_was_space && st.result.len() > 0 {
            FilterState { result: st.result.push(' '), prev_was_space: true, ..st }
        } else {
            st
        }
    } else if !st.in_annotation {
        FilterState { result: st.result.push(ch), prev_was_space: false, ..st }
    } else {
        st
    }
}

/// The scanner state after reading all of `s`.
pub open spec fn filter_run(s: Seq<char>) -> FilterState
    decreases s.len(),
{
    if s.len() == 0 {
        filter_start()
    } else {
        filter_step(filter_run(s.drop_last()), s.last())
    }
}

/// The filtered movetext: what the scanner kept, trimmed.
pub open spec fn filtered(s: Seq<char>) -> Seq<char> {
    text::trim(filter_run(s).result)
}

/// No two spaces stand next to each other.
pub open spec fn no_double_space(s: Seq<char>) -> bool {
    forall|i: int| 0 <= i < s.len() - 1 ==> !#[trigger] space_pair(s, i)
}

/// Positions `i` and `i + 1` both hold a space.
pub open spec fn space_pair(s: Seq<char>, i: int) -> bool {
    s[i] == ' ' && s[i + 1] == ' '
}

/// Removes `{ ... }` annotations (nested ones included) from movetext,
/// collapses runs of spaces and trims the result.
pub fn filter_movetext_annotations(movetext: &str) -> (r: String)
    ensures
        r@ == filtered(movetext@),
        !r@.contains('{'),
        !r@.contains('}'),
        no_double_space(r@),
        text::trim(r@) == r@,
{
    let chars = chars_of(movetext);
    let mut result: Vec<char> = Vec::new();
    let mut in_annotation = false;
    let mut brace_depth: i128 = 0;
    let mut prev_was_space = false;
    let mut i: usize = 0;
    while i < chars.len()
        invariant
            i <= chars@.len(),
            chars@ == movetext@,
            -(i as int) <= brace_depth <= i as int,
            ({
                let st = filter_run(chars@.take(i as int));
                &&& st.result == result@
                &&& st.in_annotation == in_annotation
                &&& st.depth == brace_depth
                &&& st.prev_was_space == prev_was_space
            }),
            clean_scan(result@, prev_was_space),
        decreases chars.len() - i,
    {
        let ch = chars[i];
        assert(chars@.take(i + 1).drop_last() =~= chars@.take(i as int));
        if ch == '{' {
            in_annotation = true;
            brace_depth += 1;
        } else if ch == '}' {
            brace_depth -= 1;
            if brace_depth == 0 {
                in_annotation = false;
                if !prev_was_space && result.len() > 0 {
                    proof {
                        lemma_clean_push(result@, prev_was_space, ' ');
                    }
                    result.push(' ');
                }
                prev_was_space = true;
            }
        } else if ch == ' ' && !in_annotation {
            if !prev_was_space && result.len() > 0 {
                proof {
                    lemma_clean_push(result@, prev_was_space, ' ');
                }
                result.push(' ');
                prev_was_space = true;
            }
        } else if !in_annotation {
            proof {
                lemma_clean_push(result@, prev_was_space, ch);
            }
            prev_was_space = false;
            result.push(ch);
        }
        i += 1;
    }
    assert(chars@.take(chars@.len() as int) =~= chars@);
    let trimmed = trim_chars(result.as_slice());
    proof {
        lemma_trim_clean(result@);
    }
    string_of(trimmed.as_slice())
}

/// What the scanner keeps has no braces, does not start with a space, has no
/// two spaces in a row, and ends in a space only right after one was added.
pub open spec fn clean_scan(r: Seq<char>, prev_was_space: bool) -> bool {
    &&& !r.contains('{')
    &&& !r.contains('}')
    &&& no_double_space(r)
    &&& (r.len() > 0 ==> r[0] != ' ')
    &&& (r.len() > 0 && r.last() == ' ' ==> prev_was_space)
}

pub proof fn lemma_clean_push(r: Seq<char>, prev_was_space: bool, ch: char)
    requires
        clean_scan(r, prev_was_space),
        ch != '{',
        ch != '}',
        ch == ' ' ==> !prev_was_space && r.len() > 0,
    ensures
        clean_scan(r.push(ch), ch == ' '),
{
    let t = r.push(ch);
    assert forall|i: int| 0 <= i < t.len() - 1 implies !#[trigger] space_pair(t, i) by {
        if i < r.len() - 1 {
            assert(!space_pair(r, i));
        } else {
            assert(i == r.len() - 1);
            assert(t[i] == r.last());
        }
    }
    assert forall|j: int| 0 <= j < t.len() implies t[j] != '{' && t[j] != '}' by {
        if j < r.len() {
            assert(t[j] == r[j]);
        }
    }
}

pub proof fn lemma_trim_start_sub(s: Seq<char>)
    ensures
        exists|a: int| 0 <= a <= s.len() && text::trim_start(s) == s.skip(a),
    decreases s.len(),
{
    if s.len() > 0 && text::is_ws(s[0]) {
        lemma_trim_start_sub(s.drop_first());
        let a = choose|a: int| 0 <= a <= s.drop_first().len() && text::trim_start(s.drop_first()) == s.drop_first().skip(a);
        assert(s.drop_first().skip(a) =~= s.skip(a + 1));
    } else {
        assert(s.skip(0) =~= s);
    }
}

pub proof fn lemma_trim_end_sub(s: Seq<char>)
    ensures
        exists|b: int| 0 <= b <= s.len() && text::trim_end(s) == s.take(b),
        text::trim_end(s).len() > 0 ==> !text::is_ws(text::trim_end(s).last()),
    decreases s.len(),
{
    if s.len() > 0 && text::is_ws(s.last()) {
        lemma_trim_end_sub(s.drop_last());
        let b = choose|b: int| 0 <= b <= s.drop_last().len() && text::trim_end(s.drop_last()) == s.drop_last().take(b);
        assert(s.drop_last().take(b) =~= s.take(b));
    } else {
        assert(s.take(s.len() as int) =~= s);
    }
}

pub proof fn lemma_trim_start_head(s: Seq<char>)
    ensures
        text::trim_start(s).len() > 0 ==> !text::is_ws(text::trim_start(s)[0]),
    decreases s.len(),
{
    if s.len() > 0 && text::is_ws(s[0]) {
        lemma_trim_start_head(s.drop_first());
    }
}

/// Trimming keeps a cleanly scanned text clean and is then a fixed point.
pub proof fn lemma_trim_clean(r: Seq<char>)
    requires
        !r.contains('{'),
        !r.contains('}'),
        no_double_space(r),
    ensures
        !text::trim(r).contains('{'),
        !text::trim(r).contains('}'),
        no_double_space(text::trim(r)),
        text::trim(text::trim(r)) == text::trim(r),
{
    lemma_trim_start_sub(r);
    let a = choose|a: int| 0 <= a <= r.len() && text::trim_start(r) == r.skip(a);
    let u = text::trim_start(r);
    lemma_trim_end_sub(u);
    let b = choose|b: int| 0 <= b <= u.len() && text::trim_end(u) == u.take(b);
    let t = text::trim(r);
    assert(t == r.subrange(a, a + b));
    assert forall|i: int| 0 <= i < t.len() implies t[i] == r[a + i] by {}
    if t.contains('{') {
        let i = choose|i: int| 0 <= i < t.len() && t[i] == '{';
        assert(r[a + i] == '{');
    }
    if t.contains('}') {
        let i = choose|i: int| 0 <= i < t.len() && t[i] == '}';
        assert(r[a + i] == '}');
    }
    assert forall|i: int| 0 <= i < t.len() - 1 implies !#[trigger] space_pair(t, i) by {
        assert(t[i] == r[a + i] && t[i + 1] == r[a + i + 1]);
        assert(!space_pair(r, a + i));
    }
    lemma_trim_start_head(r);
    lemma_trim_start_head(t);
    lemma_trim_end_sub(text::trim_start(t));
    if t.len() > 0 {
        assert(t[0] == u[0]);
        assert(!text::is_ws(t[0]));
        assert(text::trim_start(t) == t);
        assert(!text::is_ws(t.last()));
        assert(text::trim_end(t) == t);
    } else {
        assert(text::trim_start(t) == t);
    }
}


/// Every scanner state reached from the start is clean.
pub proof fn lemma_run_clean(s: Seq<char>)
    ensures
        clean_scan(filter_run(s).result, filter_run(s).prev_was_space),
    decreases s.len(),
{
    if s.len() > 0 {
        lemma_run_clean(s.drop_last());
        let st = filter_run(s.drop_last());
        let ch = s.last();
        if ch == '{' {
        } else if ch == '}' {
            if st.depth - 1 == 0 && !st.prev_was_space && st.result.len() > 0 {
                lemma_clean_push(st.result, st.prev_was_space, ' ');
            }
        } else if ch == ' ' && !st.in_annotation {
            if !st.prev_was_space && st.result.len() > 0 {
                lemma_clean_push(st.result, st.prev_was_space, ' ');
            }
        } else if !st.in_annotation {
            lemma_clean_push(st.result, st.prev_was_space, ch);
        }
    }
}

pub proof fn lemma_trim_shorter(u: Seq<char>)
    requires
        u.len() > 0,
        text::is_ws(u[0]) || text::is_ws(u.last()),
    ensures
        text::trim(u).len() < u.len(),
{
    lemma_trim_start_sub(u);
    let a = choose|a: int| 0 <= a <= u.len() && text::trim_start(u) == u.skip(a);
    lemma_trim_end_sub(text::trim_start(u));
    if text::is_ws(u[0]) {
        lemma_trim_start_sub(u.drop_first());
        let a2 = choose|a2: int| 0 <= a2 <= u.drop_first().len() && text::trim_start(u.drop_first()) == u.drop_first().skip(a2);
        assert(text::trim_start(u).len() < u.len());
    } else {
        assert(text::trim_start(u) == u);
        lemma_trim_end_sub(u.drop_last());
        assert(text::trim_end(u) == text::trim_end(u.drop_last()));
    }
}

/// On an already clean, trimmed text the scanner keeps everything.
pub proof fn lemma_run_fixed(u: Seq<char>, k: int)
    requires
        !u.contains('{'),
        !u.contains('}'),
        no_double_space(u),
        text::trim(u) == u,
        0 <= k <= u.len(),
    ensures
        filter_run(u.take(k)) == (FilterState {
            result: u.take(k),
            in_annotation: false,
            depth: 0,
            prev_was_space: k > 0 && u[k - 1] == ' ',
        }),
    decreases k,
{
    if k == 0 {
        assert(u.take(0) =~= Seq::<char>::empty());
    } else {
        lemma_run_fixed(u, k - 1);
        assert(u.take(k).drop_last() =~= u.take(k - 1));
        let ch = u[k - 1];
        assert(u.take(k).last() == ch);
        assert(ch != '{' && ch != '}');
        if ch == ' ' {
            if k - 1 == 0 {
                lemma_trim_shorter(u);
            } else {
                assert(!space_pair(u, k - 2));
            }
        }
        assert(u.take(k - 1).push(ch) =~= u.take(k));
    }
}

/// Filtering an already filtered movetext changes nothing.
pub proof fn law_filter_idempotent(s: Seq<char>)
    ensures
        filtered(filtered(s)) == filtered(s),
{
    lemma_run_clean(s);
    let u = filtered(s);
    lemma_trim_clean(filter_run(s).result);
    lemma_run_fixed(u, u.len() as int);
    assert(u.take(u.len() as int) =~= u);
}

/// `filter_movetext_annotations(VARCHAR) -> VARCHAR`.
pub struct FilterMovetextScalar;

impl FilterMovetextScalar {
    /// The output for one row.
    pub fn invoke_row(value: &str) -> (r: String)
        ensures
            r@ == filtered(value@),
    {
        filter_movetext_annotations(value)
    }
}


/// `s` with every run of spaces replaced by a single space.
pub open spec fn collapse_spaces(s: Seq<char>) -> Seq<char>
    decreases s.len(),
{
    if s.len() == 0 {
        Seq::empty()
    } else {
        let c = collapse_spaces(s.drop_last());
        if s.last() == ' ' && c.len() > 0 && c.last() == ' ' {
            c
        } else {
            c.push(s.last())
        }
    }
}

/// A text without its first character when that is a space.
pub open spec fn drop_leading_space(c: Seq<char>) -> Seq<char> {
    if c.len() > 0 && c[0] == ' ' {
        c.drop_first()
    } else {
        c
    }
}

/// On text without braces the scanner keeps the text with its runs of
/// spaces collapsed, less a leading space.
proof fn lemma_run_brace_free(s: Seq<char>)
    requires
        !s.contains('{'),
        !s.contains('}'),
    ensures
        filter_run(s) == (FilterState {
            result: drop_leading_space(collapse_spaces(s)),
            in_annotation: false,
            depth: 0,
            prev_was_space: drop_leading_space(collapse_spaces(s)).len() > 0
                && drop_leading_space(collapse_spaces(s)).last() == ' ',
        }),
    decreases s.len(),
{
    if s.len() > 0 {
        let p = s.drop_last();
        assert forall|i: int| 0 <= i < p.len() implies p[i] != '{' && p[i] != '}' by {
            assert(p[i] == s[i]);
        }
        lemma_run_brace_free(p);
        let c = collapse_spaces(p);
        let ch = s.last();
        assert(ch == s[s.len() - 1]);
        if c.len() > 0 {
            assert(drop_leading_space(c.push(ch)) =~= drop_leading_space(c).push(ch));
            if c[0] == ' ' && c.len() > 1 {
                assert(drop_leading_space(c).last() == c.last());
            }
        } else {
            assert(drop_leading_space(c.push(ch)) =~= if ch == ' ' {
                Seq::<char>::empty()
            } else {
                seq![ch]
            });
        }
    }
}

/// Dropping a leading space does not change the trimmed text.
proof fn lemma_trim_drop_leading_space(c: Seq<char>)
    ensures
        text::trim(drop_leading_space(c)) == text::trim(c),
{
    if c.len() > 0 && c[0] == ' ' {
        assert(text::is_ws(c[0]));
        assert(text::trim_start(c) == text::trim_start(c.drop_first()));
    }
}

/// Law: on movetext without braces, filtering collapses every run of spaces
/// to one space and trims the result.
pub proof fn law_filter_brace_free(s: Seq<char>)
    requires
        !s.contains('{'),
        !s.contains('}'),
    ensures
        filtered(s) == text::trim(collapse_spaces(s)),
{
    lemma_run_brace_free(s);
    lemma_trim_drop_leading_space(collapse_spaces(s));
}

} // verus!
