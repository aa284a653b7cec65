//! Character-level text operations over `Seq<char>` models, with executable
//! counterparts working on `Vec<char>` and `&[char]`.
use vstd::prelude::*;

verus! {

// ---------------------------------------------------------------------------
// Conversions between `str`/`String` and character vectors
// ---------------------------------------------------------------------------

/// The characters of `s`, in order.
pub fn chars_of(s: &str) -> (v: Vec<char>)
    ensures
        v@ == s@,
{
    let mut v: Vec<char> = Vec::new();
    for c in it: s.chars()
        invariant
            v@ == it.seq().take(it.index() as int),
            it.seq() == s@,
    {
        v.push(c);
    }
    v
}

/// Appends one character to a `String` (`String::push`): std documents that the
/// character is added at the end and nothing else changes.
#[verifier::external_body]
pub(crate) fn push_char(s: &mut String, c: char)
    ensures
        final(s)@ == old(s)@.push(c),
{
    s.push(c);
}

/// A `String` holding exactly the characters of `v`.
pub fn string_of(v: &[char]) -> (s: String)
    ensures
        s@ == v@,
{
    let mut s = String::new();
    let mut i: usize = 0;
    while i < v.len()
        invariant
            i <= v.len(),
            s@ == v@.take(i as int),
        decreases v.len() - i,
    {
        push_char(&mut s, v[i]);
        i += 1;
        assert(s@ =~= v@.take(i as int));
    }
    assert(v@.take(v@.len() as int) =~= v@);
    s
}

/// A `String` holding the characters of a string slice.
pub fn string_from(s: &str) -> (r: String)
    ensures
        r@ == s@,
{
    let v = chars_of(s);
    string_of(v.as_slice())
}

/// A fresh vector with the elements `s[a..b]`.
pub fn copy_range(s: &[char], a: usize, b: usize) -> (r: Vec<char>)
    requires
        a <= b <= s@.len(),
    ensures
        r@ == s@.subrange(a as int, b as int),
{
    let mut r: Vec<char> = Vec::new();
    let mut i = a;
    while i < b
        invariant
            a <= i <= b <= s@.len(),
            r@ == s@.subrange(a as int, i as int),
        decreases b - i,
    {
        r.push(s[i]);
        i += 1;
        assert(r@ =~= s@.subrange(a as int, i as int));
    }
    r
}

/// Appends all of `t` to `v`.
pub fn append_chars(v: &mut Vec<char>, t: &[char])
    ensures
        final(v)@ == old(v)@ + t@,
{
    let mut i: usize = 0;
    while i < t.len()
        invariant
            i <= t.len(),
            v@ == old(v)@ + t@.take(i as int),
        decreases t.len() - i,
    {
        v.push(t[i]);
        i += 1;
        assert(v@ =~= old(v)@ + t@.take(i as int));
    }
    assert(t@.take(t@.len() as int) =~= t@);
}

/// Appends the characters of a string slice to `v`.
pub fn append_str(v: &mut Vec<char>, t: &str)
    ensures
        final(v)@ == old(v)@ + t@,
{
    let c = chars_of(t);
    append_chars(v, c.as_slice());
}

/// Whether two character sequences are equal.
pub fn chars_eq(a: &[char], b: &[char]) -> (r: bool)
    ensures
        r == (a@ == b@),
{
    if a.len() != b.len() {
        return false;
    }
    let mut i: usize = 0;
    while i < a.len()
        invariant
            i <= a.len(),
            a@.len() == b@.len(),
            forall|k: int| 0 <= k < i ==> a@[k] == b@[k],
        decreases a.len() - i,
    {
        if a[i] != b[i] {
            return false;
        }
        i += 1;
    }
    assert(a@ =~= b@);
    true
}

/// Whether a character sequence equals the characters of a string slice.
pub fn chars_eq_str(a: &[char], b: &str) -> (r: bool)
    ensures
        r == (a@ == b@),
{
    let bv = chars_of(b);
    chars_eq(a, bv.as_slice())
}

// ---------------------------------------------------------------------------
// Character classes
// ---------------------------------------------------------------------------

/// `char::is_whitespace`: the Unicode `White_Space` property.
pub open spec fn is_ws(c: char) -> bool {
    ||| c == ' '
    ||| ('\t' <= c && c <= '\r')
    ||| c == '\u{85}'
    ||| c == '\u{a0}'
    ||| c == '\u{1680}'
    ||| ('\u{2000}' <= c && c <= '\u{200a}')
    ||| c == '\u{2028}'
    ||| c == '\u{2029}'
    ||| c == '\u{202f}'
    ||| c == '\u{205f}'
    ||| c == '\u{3000}'
}

pub fn is_ws_exec(c: char) -> (r: bool)
    ensures
        r == is_ws(c),
{
    c == ' ' || ('\t' <= c && c <= '\r') || c == '\u{85}' || c == '\u{a0}' || c == '\u{1680}'
        || ('\u{2000}' <= c && c <= '\u{200a}') || c == '\u{2028}' || c == '\u{2029}' || c
        == '\u{202f}' || c == '\u{205f}' || c == '\u{3000}'
}

pub open spec fn is_digit(c: char) -> bool {
    '0' <= c && c <= '9'
}

pub fn is_digit_exec(c: char) -> (r: bool)
    ensures
        r == is_digit(c),
{
    '0' <= c && c <= '9'
}

/// The value of an ASCII decimal digit.
pub open spec fn digit_value(c: char) -> int {
    (c as int) - ('0' as int)
}

pub open spec fn is_ascii_alpha(c: char) -> bool {
    ('a' <= c && c <= 'z') || ('A' <= c && c <= 'Z')
}

pub open spec fn is_ascii_alnum(c: char) -> bool {
    is_ascii_alpha(c) || is_digit(c)
}

pub open spec fn is_ascii(c: char) -> bool {
    (c as int) < 128
}

/// `char::to_ascii_lowercase`.
pub open spec fn ascii_lower(c: char) -> char {
    if 'A' <= c && c <= 'Z' {
        ((c as int) + 32) as char
    } else {
        c
    }
}

pub fn ascii_lower_exec(c: char) -> (r: char)
    ensures
        r == ascii_lower(c),
{
    if 'A' <= c && c <= 'Z' {
        let n: u8 = (c as u8) + 32;
        n as char
    } else {
        c
    }
}

// ---------------------------------------------------------------------------
// Trimming
// ---------------------------------------------------------------------------

pub open spec fn trim_start(s: Seq<char>) -> Seq<char>
    decreases s.len(),
{
    if s.len() > 0 && is_ws(s[0]) {
        trim_start(s.drop_first())
    } else {
        s
    }
}

pub open spec fn trim_end(s: Seq<char>) -> Seq<char>
    decreases s.len(),
{
    if s.len() > 0 && is_ws(s.last()) {
        trim_end(s.drop_last())
    } else {
        s
    }
}

/// `str::trim`: whitespace removed at both ends.
pub open spec fn trim(s: Seq<char>) -> Seq<char> {
    trim_end(trim_start(s))
}

pub proof fn lemma_trim_start_len(s: Seq<char>)
    ensures
        trim_start(s).len() <= s.len(),
    decreases s.len(),
{
    if s.len() > 0 && is_ws(s[0]) {
        lemma_trim_start_len(s.drop_first());
    }
}

pub proof fn lemma_trim_end_len(s: Seq<char>)
    ensures
        trim_end(s).len() <= s.len(),
    decreases s.len(),
{
    if s.len() > 0 && is_ws(s.last()) {
        lemma_trim_end_len(s.drop_last());
    }
}

/// Trimming never lengthens.
pub proof fn lemma_trim_len(s: Seq<char>)
    ensures
        trim(s).len() <= s.len(),
{
    lemma_trim_start_len(s);
    lemma_trim_end_len(trim_start(s));
}

/// Index of the first non-whitespace character (or the length).
pub fn trim_start_index(s: &[char]) -> (i: usize)
    ensures
        i <= s@.len(),
        trim_start(s@) == s@.skip(i as int),
{
    let mut i: usize = 0;
    assert(s@.skip(0) =~= s@);
    while i < s.len() && is_ws_exec(s[i])
        invariant
            i <= s@.len(),
            trim_start(s@) == trim_start(s@.skip(i as int)),
        decreases s.len() - i,
    {
        assert(s@.skip(i as int).drop_first() =~= s@.skip(i + 1));
        i += 1;
    }
    i
}

/// One past the last non-whitespace character of `s[start..]`.
pub fn trim_end_index(s: &[char], start: usize) -> (e: usize)
    requires
        start <= s@.len(),
    ensures
        start <= e <= s@.len(),
        trim_end(s@.skip(start as int)) == s@.subrange(start as int, e as int),
{
    let mut e: usize = s.len();
    assert(s@.skip(start as int) =~= s@.subrange(start as int, e as int));
    while e > start && is_ws_exec(s[e - 1])
        invariant
            start <= e <= s@.len(),
            trim_end(s@.skip(start as int)) == trim_end(s@.subrange(start as int, e as int)),
        decreases e,
    {
        assert(s@.subrange(start as int, e as int).drop_last() =~= s@.subrange(
            start as int,
            e - 1,
        ));
        e -= 1;
    }
    e
}

/// `str::trim` on a character slice.
pub fn trim_chars(s: &[char]) -> (r: Vec<char>)
    ensures
        r@ == trim(s@),
{
    let a = trim_start_index(s);
    let b = trim_end_index(s, a);
    copy_range(s, a, b)
}

/// Whether `trim(s)` is empty.
pub fn is_blank(s: &[char]) -> (r: bool)
    ensures
        r == (trim(s@).len() == 0),
{
    let a = trim_start_index(s);
    let b = trim_end_index(s, a);
    a == b
}


// ---------------------------------------------------------------------------
// Searching
// ---------------------------------------------------------------------------

/// Whether `pat` occurs in `s` starting at index `i`.
pub open spec fn occurs_at(s: Seq<char>, i: int, pat: Seq<char>) -> bool {
    0 <= i && i + pat.len() <= s.len() && s.subrange(i, i + pat.len()) == pat
}

/// `str::contains` with a string pattern.
pub open spec fn contains_seq(s: Seq<char>, pat: Seq<char>) -> bool {
    exists|i: int| occurs_at(s, i, pat)
}

pub fn occurs_at_exec(s: &[char], i: usize, pat: &[char]) -> (r: bool)
    ensures
        r == occurs_at(s@, i as int, pat@),
{
    if i > s.len() || pat.len() > s.len() - i {
        return false;
    }
    let end: usize = i + pat.len();
    let mut k: usize = 0;
    while k < pat.len()
        invariant
            k <= pat@.len(),
            end == i + pat@.len(),
            end <= s@.len(),
            forall|j: int| 0 <= j < k ==> s@[i + j] == pat@[j],
        decreases pat.len() - k,
    {
        let idx: usize = i + k;
        if s[idx] != pat[k] {
            assert(s@.subrange(i as int, i + pat@.len())[k as int] != pat@[k as int]);
            return false;
        }
        k += 1;
    }
    assert(s@.subrange(i as int, i + pat@.len()) =~= pat@);
    true
}

pub fn contains_seq_exec(s: &[char], pat: &[char]) -> (r: bool)
    ensures
        r == contains_seq(s@, pat@),
{
    let mut i: usize = 0;
    while i < s.len()
        invariant
            i <= s@.len(),
            forall|j: int| 0 <= j < i ==> !occurs_at(s@, j, pat@),
        decreases s.len() - i,
    {
        if occurs_at_exec(s, i, pat) {
            return true;
        }
        i += 1;
    }
    if occurs_at_exec(s, i, pat) {
        return true;
    }
    assert forall|j: int| !occurs_at(s@, j, pat@) by {
        if 0 <= j && j <= s@.len() {
        }
    }
    false
}

pub fn contains_str(s: &[char], pat: &str) -> (r: bool)
    ensures
        r == contains_seq(s@, pat@),
{
    let p = chars_of(pat);
    contains_seq_exec(s, p.as_slice())
}

pub fn contains_char(s: &[char], c: char) -> (r: bool)
    ensures
        r == s@.contains(c),
{
    let mut i: usize = 0;
    while i < s.len()
        invariant
            i <= s@.len(),
            forall|j: int| 0 <= j < i ==> s@[j] != c,
        decreases s.len() - i,
    {
        if s[i] == c {
            return true;
        }
        i += 1;
    }
    false
}

/// Index of the first occurrence of `c`, if any.
pub open spec fn find_char(s: Seq<char>, c: char) -> Option<int>
    decreases s.len(),
{
    if s.len() == 0 {
        None
    } else if s[0] == c {
        Some(0)
    } else {
        match find_char(s.drop_first(), c) {
            Some(i) => Some(i + 1),
            None => None,
        }
    }
}

pub proof fn lemma_find_char(s: Seq<char>, c: char)
    ensures
        find_char(s, c) matches Some(i) ==> 0 <= i < s.len() && s[i] == c && forall|j: int|
            0 <= j < i ==> s[j] != c,
        find_char(s, c) is None ==> !s.contains(c),
    decreases s.len(),
{
    if s.len() > 0 {
        lemma_find_char(s.drop_first(), c);
        if s[0] != c {
            if let Some(i) = find_char(s.drop_first(), c) {
                assert forall|j: int| 0 <= j < i + 1 implies s[j] != c by {
                    if j > 0 {
                        assert(s[j] == s.drop_first()[j - 1]);
                    }
                }
            }
            if find_char(s, c) is None {
                assert forall|j: int| 0 <= j < s.len() implies s[j] != c by {
                    if j > 0 {
                        assert(s[j] == s.drop_first()[j - 1]);
                    }
                }
            }
        }
    }
}

pub fn find_char_exec(s: &[char], c: char) -> (r: Option<usize>)
    ensures
        r matches Some(i) ==> find_char(s@, c) == Some(i as int),
        r is None ==> find_char(s@, c) is None,
{
    let mut i: usize = 0;
    while i < s.len()
        invariant
            i <= s@.len(),
            forall|j: int| 0 <= j < i ==> s@[j] != c,
        decreases s.len() - i,
    {
        if s[i] == c {
            proof {
                lemma_find_char(s@, c);
                if let Some(k) = find_char(s@, c) {
                    assert(k == i);
                }
            }
            return Some(i);
        }
        i += 1;
    }
    proof {
        lemma_find_char(s@, c);
    }
    None
}

pub fn starts_with_str(s: &[char], pat: &str) -> (r: bool)
    ensures
        r == (pat@.len() <= s@.len() && s@.take(pat@.len() as int) == pat@),
{
    let p = chars_of(pat);
    let r = occurs_at_exec(s, 0, p.as_slice());
    assert(s@.subrange(0, p@.len() as int) =~= s@.take(p@.len() as int));
    r
}

// ---------------------------------------------------------------------------
// Replacing
// ---------------------------------------------------------------------------

/// `str::replace` with a non-empty string pattern: matches are taken left to
/// right without overlapping.
pub open spec fn replace(s: Seq<char>, pat: Seq<char>, rep: Seq<char>) -> Seq<char>
    decreases s.len(),
{
    if s.len() == 0 {
        s
    } else if pat.len() > 0 && pat.len() <= s.len() && s.take(pat.len() as int) == pat {
        rep + replace(s.skip(pat.len() as int), pat, rep)
    } else {
        seq![s[0]] + replace(s.drop_first(), pat, rep)
    }
}

pub fn replace_exec(s: &[char], pat: &[char], rep: &[char]) -> (r: Vec<char>)
    ensures
        r@ == replace(s@, pat@, rep@),
{
    let mut out: Vec<char> = Vec::new();
    let mut i: usize = 0;
    assert(s@.skip(0) =~= s@);
    while i < s.len()
        invariant
            i <= s@.len(),
            replace(s@, pat@, rep@) == out@ + replace(s@.skip(i as int), pat@, rep@),
        decreases s.len() - i,
    {
        let ghost t = s@.skip(i as int);
        let ghost o = out@;
        if pat.len() > 0 && occurs_at_exec(s, i, pat) {
            assert(t.take(pat@.len() as int) =~= s@.subrange(i as int, i + pat@.len()));
            assert(t.skip(pat@.len() as int) =~= s@.skip(i + pat@.len()));
            append_chars(&mut out, rep);
            i += pat.len();
            assert(o + (rep@ + replace(s@.skip(i as int), pat@, rep@)) =~= out@ + replace(
                s@.skip(i as int),
                pat@,
                rep@,
            ));
        } else {
            proof {
                if pat@.len() <= t.len() {
                    assert(t.take(pat@.len() as int) =~= s@.subrange(i as int, i + pat@.len()));
                }
            }
            assert(t.drop_first() =~= s@.skip(i + 1));
            out.push(s[i]);
            i += 1;
            assert(o + (seq![t[0]] + replace(s@.skip(i as int), pat@, rep@)) =~= out@ + replace(
                s@.skip(i as int),
                pat@,
                rep@,
            ));
        }
    }
    assert(s@.skip(i as int).len() == 0);
    out
}

pub fn replace_str(s: &[char], pat: &str, rep: &str) -> (r: Vec<char>)
    ensures
        r@ == replace(s@, pat@, rep@),
{
    let p = chars_of(pat);
    let q = chars_of(rep);
    replace_exec(s, p.as_slice(), q.as_slice())
}


// ---------------------------------------------------------------------------
// Splitting and joining
// ---------------------------------------------------------------------------

/// The views of a sequence of character vectors.
pub open spec fn views(v: Seq<Vec<char>>) -> Seq<Seq<char>> {
    Seq::new(v.len(), |i: int| v[i]@)
}

/// `str::split` on a single character: the pieces between separators, empty
/// pieces included (there is always at least one piece).
pub open spec fn split_char(s: Seq<char>, c: char) -> Seq<Seq<char>>
    decreases s.len(),
{
    if s.len() == 0 {
        seq![Seq::<char>::empty()]
    } else {
        let rest = split_char(s.drop_first(), c);
        if s[0] == c {
            seq![Seq::<char>::empty()] + rest
        } else {
            rest.update(0, seq![s[0]] + rest[0])
        }
    }
}

pub proof fn lemma_split_char_nonempty(s: Seq<char>, c: char)
    ensures
        split_char(s, c).len() >= 1,
    decreases s.len(),
{
    if s.len() > 0 {
        lemma_split_char_nonempty(s.drop_first(), c);
    }
}

/// Prefixes `cur` to the first piece of `pieces`.
pub open spec fn prepend_first(cur: Seq<char>, pieces: Seq<Seq<char>>) -> Seq<Seq<char>> {
    pieces.update(0, cur + pieces[0])
}

pub fn split_char_exec(s: &[char], c: char) -> (r: Vec<Vec<char>>)
    ensures
        views(r@) == split_char(s@, c),
{
    let mut done: Vec<Vec<char>> = Vec::new();
    let mut cur: Vec<char> = Vec::new();
    let mut i: usize = 0;
    assert(s@.skip(0) =~= s@);
    proof {
        lemma_split_char_nonempty(s@, c);
        assert(prepend_first(cur@, split_char(s@, c)) =~= split_char(s@, c));
        assert(views(done@) + prepend_first(cur@, split_char(s@, c)) =~= split_char(s@, c));
    }
    while i < s.len()
        invariant
            i <= s@.len(),
            split_char(s@, c) == views(done@) + prepend_first(cur@, split_char(s@.skip(i as int), c)),
        decreases s.len() - i,
    {
        let ghost t = s@.skip(i as int);
        assert(t.drop_first() =~= s@.skip(i + 1));
        proof {
            lemma_split_char_nonempty(s@.skip(i + 1), c);
        }
        let ghost r = split_char(s@.skip(i + 1), c);
        if s[i] == c {
            let ghost old_done = views(done@);
            let ghost old_cur = cur@;
            done.push(cur);
            cur = Vec::new();
            assert(views(done@) =~= old_done.push(old_cur));
            assert(prepend_first(old_cur, seq![Seq::<char>::empty()] + r) =~= seq![old_cur] + r);
            assert(prepend_first(cur@, r) =~= r);
            assert(old_done + (seq![old_cur] + r) =~= views(done@) + prepend_first(cur@, r));
        } else {
            let ghost old_cur = cur@;
            cur.push(s[i]);
            assert(t[0] == s@[i as int]);
            assert(prepend_first(old_cur, r.update(0, seq![t[0]] + r[0])) =~~= prepend_first(
                cur@,
                r,
            ));
        }
        i += 1;
    }
    let ghost old_done = views(done@);
    let ghost last = cur@;
    assert(s@.skip(i as int) =~= Seq::<char>::empty());
    done.push(cur);
    assert(views(done@) =~= old_done.push(last));
    assert(prepend_first(last, seq![Seq::<char>::empty()]) =~= seq![last]);
    done
}

/// Joins pieces with a separator.
pub open spec fn join(parts: Seq<Seq<char>>, sep: Seq<char>) -> Seq<char>
    decreases parts.len(),
{
    if parts.len() == 0 {
        Seq::empty()
    } else if parts.len() == 1 {
        parts[0]
    } else {
        join(parts.drop_last(), sep) + sep + parts.last()
    }
}

pub fn join_exec(parts: &Vec<Vec<char>>, sep: &[char]) -> (r: Vec<char>)
    ensures
        r@ == join(views(parts@), sep@),
{
    let mut out: Vec<char> = Vec::new();
    let mut i: usize = 0;
    while i < parts.len()
        invariant
            i <= parts@.len(),
            out@ == join(views(parts@).take(i as int), sep@),
        decreases parts.len() - i,
    {
        let ghost prev = out@;
        if i > 0 {
            append_chars(&mut out, sep);
        }
        append_chars(&mut out, parts[i].as_slice());
        assert(views(parts@).take(i + 1).drop_last() =~= views(parts@).take(i as int));
        if i == 0 {
            assert(out@ =~= join(views(parts@).take(1), sep@));
        }
        i += 1;
    }
    assert(views(parts@).take(parts@.len() as int) =~= views(parts@));
    out
}

/// Words separated by whitespace (`str::split_whitespace`).
pub open spec fn words(s: Seq<char>) -> Seq<Seq<char>>
    decreases s.len(),
{
    if s.len() == 0 {
        Seq::empty()
    } else {
        let rest = words(s.drop_first());
        if is_ws(s[0]) {
            rest
        } else if s.len() > 1 && !is_ws(s[1]) {
            rest.update(0, seq![s[0]] + rest[0])
        } else {
            seq![seq![s[0]]] + rest
        }
    }
}

pub proof fn lemma_words_start(s: Seq<char>)
    ensures
        s.len() > 0 && !is_ws(s[0]) ==> words(s).len() >= 1,
    decreases s.len(),
{
    if s.len() > 1 {
        lemma_words_start(s.drop_first());
    }
}

/// The words of `s` still to come, given the word `cur` being read at `s[i]`.
pub open spec fn words_from(s: Seq<char>, i: int, cur: Seq<char>) -> Seq<Seq<char>> {
    if cur.len() == 0 {
        words(s.skip(i))
    } else if i < s.len() && !is_ws(s[i]) {
        prepend_first(cur, words(s.skip(i)))
    } else {
        seq![cur] + words(s.skip(i))
    }
}

pub fn words_exec(s: &[char]) -> (r: Vec<Vec<char>>)
    ensures
        views(r@) == words(s@),
{
    let mut done: Vec<Vec<char>> = Vec::new();
    let mut cur: Vec<char> = Vec::new();
    let mut i: usize = 0;
    assert(s@.skip(0) =~= s@);
    assert(views(done@) + words_from(s@, 0, cur@) =~= words(s@));
    while i < s.len()
        invariant
            i <= s@.len(),
            words(s@) == views(done@) + words_from(s@, i as int, cur@),
        decreases s.len() - i,
    {
        let ghost t = s@.skip(i as int);
        assert(t.drop_first() =~= s@.skip(i + 1));
        let ghost r = words(s@.skip(i + 1));
        assert(t[0] == s@[i as int]);
        proof {
            lemma_words_start(s@.skip(i + 1));
        }
        if is_ws_exec(s[i]) {
            if cur.len() > 0 {
                let ghost old_done = views(done@);
                let ghost old_cur = cur@;
                done.push(cur);
                cur = Vec::new();
                assert(views(done@) =~= old_done.push(old_cur));
                assert(old_done + (seq![old_cur] + r) =~= views(done@) + r);
            }
        } else {
            let ghost old_cur = cur@;
            cur.push(s[i]);
            if i + 1 < s.len() && !is_ws_exec(s[i + 1]) {
                assert(s@.skip(i + 1)[0] == s@[i + 1]);
                proof {
                    if old_cur.len() > 0 {
                        assert(prepend_first(old_cur, r.update(0, seq![t[0]] + r[0]))
                            =~~= prepend_first(cur@, r));
                    } else {
                        assert(r.update(0, seq![t[0]] + r[0]) =~~= prepend_first(cur@, r));
                    }
                }
            } else {
                if i + 1 < s.len() {
                    assert(s@.skip(i + 1)[0] == s@[i + 1]);
                }
                proof {
                    if old_cur.len() > 0 {
                        assert(prepend_first(old_cur, seq![seq![t[0]]] + r) =~~= seq![cur@] + r);
                    } else {
                        assert(seq![seq![t[0]]] + r =~~= seq![cur@] + r);
                    }
                }
            }
        }
        i += 1;
    }
    assert(s@.skip(i as int) =~= Seq::<char>::empty());
    if cur.len() > 0 {
        let ghost old_done = views(done@);
        let ghost last = cur@;
        done.push(cur);
        assert(views(done@) =~= old_done.push(last));
        assert(old_done + (seq![last] + Seq::<Seq<char>>::empty()) =~= views(done@));
    } else {
        assert(views(done@) + Seq::<Seq<char>>::empty() =~= views(done@));
    }
    done
}


// ---------------------------------------------------------------------------
// Integers
// ---------------------------------------------------------------------------

/// The kinds of failure of std's integer parsing (`core::num::IntErrorKind`).
#[derive(Clone, Copy, Debug, PartialEq, Eq)]
pub enum IntErrorKind {
    Empty,
    InvalidDigit,
    PosOverflow,
    NegOverflow,
}

/// The text std shows for a `ParseIntError` of each kind.
pub open spec fn int_error_text(k: IntErrorKind) -> Seq<char> {
    match k {
        IntErrorKind::Empty => "cannot parse integer from empty string"@,
        IntErrorKind::InvalidDigit => "invalid digit found in string"@,
        IntErrorKind::PosOverflow => "number too large to fit in target type"@,
        IntErrorKind::NegOverflow => "number too small to fit in target type"@,
    }
}

pub fn int_error_message(k: IntErrorKind) -> (r: String)
    ensures
        r@ == int_error_text(k),
{
    match k {
        IntErrorKind::Empty => string_from("cannot parse integer from empty string"),
        IntErrorKind::InvalidDigit => string_from("invalid digit found in string"),
        IntErrorKind::PosOverflow => string_from("number too large to fit in target type"),
        IntErrorKind::NegOverflow => string_from("number too small to fit in target type"),
    }
}

/// Digits read left to right onto `acc`, failing at the first non-digit or
/// at the first step that exceeds `max`.
pub open spec fn scan_up(d: Seq<char>, acc: int, max: int) -> Result<int, IntErrorKind>
    decreases d.len(),
{
    if d.len() == 0 {
        Ok(acc)
    } else if !is_digit(d[0]) {
        Err(IntErrorKind::InvalidDigit)
    } else if acc * 10 + digit_value(d[0]) > max {
        Err(IntErrorKind::PosOverflow)
    } else {
        scan_up(d.drop_first(), acc * 10 + digit_value(d[0]), max)
    }
}

/// As `scan_up`, subtracting each digit (for negative numbers).
pub open spec fn scan_down(d: Seq<char>, acc: int, min: int) -> Result<int, IntErrorKind>
    decreases d.len(),
{
    if d.len() == 0 {
        Ok(acc)
    } else if !is_digit(d[0]) {
        Err(IntErrorKind::InvalidDigit)
    } else if acc * 10 - digit_value(d[0]) < min {
        Err(IntErrorKind::NegOverflow)
    } else {
        scan_down(d.drop_first(), acc * 10 - digit_value(d[0]), min)
    }
}

/// `str::parse` for an unsigned integer type whose largest value is `max`.
pub open spec fn parse_unsigned(s: Seq<char>, max: int) -> Result<int, IntErrorKind> {
    if s.len() == 0 {
        Err(IntErrorKind::Empty)
    } else if s.len() == 1 && (s[0] == '+' || s[0] == '-') {
        Err(IntErrorKind::InvalidDigit)
    } else if s[0] == '+' {
        scan_up(s.drop_first(), 0, max)
    } else {
        scan_up(s, 0, max)
    }
}

/// `str::parse` for a signed integer type with range `min..=max`.
pub open spec fn parse_signed(s: Seq<char>, min: int, max: int) -> Result<int, IntErrorKind> {
    if s.len() == 0 {
        Err(IntErrorKind::Empty)
    } else if s.len() == 1 && (s[0] == '+' || s[0] == '-') {
        Err(IntErrorKind::InvalidDigit)
    } else if s[0] == '+' {
        scan_up(s.drop_first(), 0, max)
    } else if s[0] == '-' {
        scan_down(s.drop_first(), 0, min)
    } else {
        scan_up(s, 0, max)
    }
}

/// `str::parse::<u32>().ok()`.
pub open spec fn parse_u32(s: Seq<char>) -> Option<u32> {
    match parse_unsigned(s, u32::MAX as int) {
        Ok(v) => Some(v as u32),
        Err(_) => None,
    }
}

pub proof fn lemma_scan_up_bounds(d: Seq<char>, acc: int, max: int)
    requires
        0 <= acc <= max,
    ensures
        scan_up(d, acc, max) matches Ok(v) ==> acc <= v <= max,
    decreases d.len(),
{
    if d.len() > 0 && is_digit(d[0]) && acc * 10 + digit_value(d[0]) <= max {
        lemma_scan_up_bounds(d.drop_first(), acc * 10 + digit_value(d[0]), max);
    }
}

pub proof fn lemma_scan_down_bounds(d: Seq<char>, acc: int, min: int)
    requires
        min <= acc <= 0,
    ensures
        scan_down(d, acc, min) matches Ok(v) ==> min <= v <= acc,
    decreases d.len(),
{
    if d.len() > 0 && is_digit(d[0]) && acc * 10 - digit_value(d[0]) >= min {
        lemma_scan_down_bounds(d.drop_first(), acc * 10 - digit_value(d[0]), min);
    }
}

fn scan_up_exec(s: &[char], start: usize, max: u64) -> (r: Result<u64, IntErrorKind>)
    requires
        start <= s@.len(),
        max <= u32::MAX,
    ensures
        match (r, scan_up(s@.skip(start as int), 0, max as int)) {
            (Ok(a), Ok(b)) => a == b,
            (Err(a), Err(b)) => a == b,
            _ => false,
        },
{
    let mut acc: u64 = 0;
    let mut i = start;
    assert(s@.skip(start as int) =~= s@.skip(i as int));
    while i < s.len()
        invariant
            start <= i <= s@.len(),
            acc <= max <= u32::MAX,
            scan_up(s@.skip(start as int), 0, max as int) == scan_up(
                s@.skip(i as int),
                acc as int,
                max as int,
            ),
        decreases s.len() - i,
    {
        let ghost t = s@.skip(i as int);
        assert(t[0] == s@[i as int]);
        assert(t.drop_first() =~= s@.skip(i + 1));
        let c = s[i];
        if !is_digit_exec(c) {
            return Err(IntErrorKind::InvalidDigit);
        }
        let dv: u64 = (c as u64) - ('0' as u64);
        assert(dv == digit_value(c));
        let next: u64 = acc * 10 + dv;
        if next > max {
            return Err(IntErrorKind::PosOverflow);
        }
        acc = next;
        i += 1;
    }
    Ok(acc)
}

fn scan_down_exec(s: &[char], start: usize, min: i64) -> (r: Result<i64, IntErrorKind>)
    requires
        start <= s@.len(),
        i32::MIN <= min <= 0,
    ensures
        match (r, scan_down(s@.skip(start as int), 0, min as int)) {
            (Ok(a), Ok(b)) => a == b,
            (Err(a), Err(b)) => a == b,
            _ => false,
        },
{
    let mut acc: i64 = 0;
    let mut i = start;
    while i < s.len()
        invariant
            start <= i <= s@.len(),
            min <= acc <= 0,
            i32::MIN <= min,
            scan_down(s@.skip(start as int), 0, min as int) == scan_down(
                s@.skip(i as int),
                acc as int,
                min as int,
            ),
        decreases s.len() - i,
    {
        let ghost t = s@.skip(i as int);
        assert(t[0] == s@[i as int]);
        assert(t.drop_first() =~= s@.skip(i + 1));
        let c = s[i];
        if !is_digit_exec(c) {
            return Err(IntErrorKind::InvalidDigit);
        }
        let dv: i64 = (c as i64) - ('0' as i64);
        assert(dv == digit_value(c));
        let next: i64 = acc * 10 - dv;
        if next < min {
            return Err(IntErrorKind::NegOverflow);
        }
        acc = next;
        i += 1;
    }
    Ok(acc)
}

/// `str::parse::<u32>()` with its error kind.
pub fn parse_u32_result(s: &[char]) -> (r: Result<u32, IntErrorKind>)
    ensures
        match (r, parse_unsigned(s@, u32::MAX as int)) {
            (Ok(a), Ok(b)) => a == b,
            (Err(a), Err(b)) => a == b,
            _ => false,
        },
{
    if s.len() == 0 {
        return Err(IntErrorKind::Empty);
    }
    if s.len() == 1 && (s[0] == '+' || s[0] == '-') {
        return Err(IntErrorKind::InvalidDigit);
    }
    let start: usize = if s[0] == '+' {
        1
    } else {
        0
    };
    assert(s@.skip(1) =~= s@.drop_first());
    assert(s@.skip(0) =~= s@);
    proof {
        lemma_scan_up_bounds(s@.skip(start as int), 0, u32::MAX as int);
    }
    match scan_up_exec(s, start, 0xffff_ffffu64) {
        Ok(v) => Ok(v as u32),
        Err(e) => Err(e),
    }
}

/// `str::parse::<u32>().ok()`.
pub fn parse_u32_exec(s: &[char]) -> (r: Option<u32>)
    ensures
        r == parse_u32(s@),
{
    match parse_u32_result(s) {
        Ok(v) => Some(v),
        Err(_) => None,
    }
}

/// `str::parse::<i32>()` with its error kind.
pub fn parse_i32_result(s: &[char]) -> (r: Result<i32, IntErrorKind>)
    ensures
        match (r, parse_signed(s@, i32::MIN as int, i32::MAX as int)) {
            (Ok(a), Ok(b)) => a == b,
            (Err(a), Err(b)) => a == b,
            _ => false,
        },
{
    if s.len() == 0 {
        return Err(IntErrorKind::Empty);
    }
    if s.len() == 1 && (s[0] == '+' || s[0] == '-') {
        return Err(IntErrorKind::InvalidDigit);
    }
    assert(s@.skip(1) =~= s@.drop_first());
    assert(s@.skip(0) =~= s@);
    if s[0] == '-' {
        proof {
            lemma_scan_down_bounds(s@.skip(1), 0, i32::MIN as int);
        }
        match scan_down_exec(s, 1, -2147483648i64) {
            Ok(v) => Ok(v as i32),
            Err(e) => Err(e),
        }
    } else {
        let start: usize = if s[0] == '+' {
            1
        } else {
            0
        };
        proof {
            lemma_scan_up_bounds(s@.skip(start as int), 0, i32::MAX as int);
        }
        match scan_up_exec(s, start, 0x7fff_ffffu64) {
            Ok(v) => Ok(v as i32),
            Err(e) => Err(e),
        }
    }
}

/// The ASCII digit for `d < 10`.
pub open spec fn digit_char(d: nat) -> char {
    ((d + 48) as u8) as char
}

/// Decimal notation of a natural number (`Display` for unsigned integers).
pub open spec fn dec(n: nat) -> Seq<char>
    decreases n,
{
    if n < 10 {
        seq![digit_char(n)]
    } else {
        dec(n / 10).push(digit_char(n % 10))
    }
}

/// Appends the decimal notation of `n` to `out`.
pub fn push_decimal(out: &mut Vec<char>, n: u64)
    ensures
        final(out)@ == old(out)@ + dec(n as nat),
    decreases n,
{
    if n >= 10 {
        push_decimal(out, n / 10);
    }
    let d: u8 = (n % 10) as u8;
    let c: char = (d + 48) as char;
    out.push(c);
    assert(final(out)@ =~= old(out)@ + dec(n as nat)) by {
        if n >= 10 {
            assert(dec(n as nat) == dec((n / 10) as nat).push(digit_char((n % 10) as nat)));
        }
    }
}

pub fn decimal(n: u64) -> (r: Vec<char>)
    ensures
        r@ == dec(n as nat),
{
    let mut v: Vec<char> = Vec::new();
    push_decimal(&mut v, n);
    assert(v@ =~= dec(n as nat));
    v
}

} // verus!

verus! {

/// `str::to_lowercase`: the full Unicode lowercase mapping, named.
pub uninterp spec fn lowercase(s: Seq<char>) -> Seq<char>;

/// Calls `str::to_lowercase`; the result is `lowercase` of the argument,
/// unproved.
#[verifier::external_body]
pub(crate) fn to_lowercase(s: &[char]) -> (r: Vec<char>)
    ensures
        r@ == lowercase(s@),
{
    let t: String = s.iter().collect();
    t.to_lowercase().chars().collect()
}

} // verus!

verus! {

/// `str::eq_ignore_ascii_case`.
pub open spec fn eq_ignore_ascii_case(a: Seq<char>, b: Seq<char>) -> bool {
    a.len() == b.len() && forall|i: int|
        0 <= i < a.len() ==> ascii_lower(#[trigger] a[i]) == ascii_lower(b[i])
}

pub fn eq_ignore_ascii_case_exec(a: &[char], b: &str) -> (r: bool)
    ensures
        r == eq_ignore_ascii_case(a@, b@),
{
    let bv = chars_of(b);
    if a.len() != bv.len() {
        return false;
    }
    let mut i: usize = 0;
    while i < a.len()
        invariant
            i <= a@.len(),
            a@.len() == bv@.len(),
            bv@ == b@,
            forall|j: int| 0 <= j < i ==> ascii_lower(#[trigger] a@[j]) == ascii_lower(bv@[j]),
        decreases a.len() - i,
    {
        if ascii_lower_exec(a[i]) != ascii_lower_exec(bv[i]) {
            return false;
        }
        i += 1;
    }
    true
}

} // verus!

verus! {

/// Whether a string has no characters.
pub fn str_is_empty(s: &str) -> (r: bool)
    ensures
        r == (s@.len() == 0),
{
    let c = chars_of(s);
    c.len() == 0
}

} // verus!

verus! {

/// Every character of a decimal numeral is a digit, and there is one.
pub proof fn lemma_dec_digits(n: nat)
    ensures
        dec(n).len() >= 1,
        forall|i: int| 0 <= i < dec(n).len() ==> is_digit(#[trigger] dec(n)[i]),
    decreases n,
{
    if n >= 10 {
        lemma_dec_digits(n / 10);
        assert forall|i: int| 0 <= i < dec(n).len() implies is_digit(#[trigger] dec(n)[i]) by {
            if i < dec(n / 10).len() {
                assert(dec(n)[i] == dec(n / 10)[i]);
            }
        }
    }
}

/// Scanning digits then one more character continues from where the
/// digits left off.
pub proof fn lemma_scan_up_push(d: Seq<char>, c: char, acc: int, max: int, v: int)
    requires
        scan_up(d, acc, max) == Ok::<int, IntErrorKind>(v),
    ensures
        scan_up(d.push(c), acc, max) == scan_up(seq![c], v, max),
    decreases d.len(),
{
    if d.len() == 0 {
        assert(d.push(c) =~= seq![c]);
    } else {
        assert(d.push(c)[0] == d[0]);
        assert(d.push(c).drop_first() =~= d.drop_first().push(c));
        lemma_scan_up_push(d.drop_first(), c, acc * 10 + digit_value(d[0]), max, v);
    }
}

pub proof fn lemma_digit_char(d: nat)
    requires
        d < 10,
    ensures
        is_digit(digit_char(d)),
        digit_value(digit_char(d)) == d as int,
{
    assert(((d + 48) as u8) as int == d + 48);
    assert((((d + 48) as u8) as char) as int == d + 48);
}

/// A decimal numeral scans back to its value.
pub proof fn lemma_scan_dec(n: nat, max: int)
    requires
        n <= max,
    ensures
        scan_up(dec(n), 0, max) == Ok::<int, IntErrorKind>(n as int),
    decreases n,
{
    if n < 10 {
        lemma_digit_char(n);
        assert(seq![digit_char(n)].drop_first() =~= Seq::<char>::empty());
        assert(scan_up(Seq::<char>::empty(), n as int, max) == Ok::<int, IntErrorKind>(n as int));
        assert(dec(n) == seq![digit_char(n)]);
    } else {
        lemma_scan_dec(n / 10, max);
        lemma_scan_up_push(dec(n / 10), digit_char(n % 10), 0, max, (n / 10) as int);
        lemma_digit_char(n % 10);
        assert((n / 10) * 10 + n % 10 == n);
        assert(seq![digit_char(n % 10)].drop_first() =~= Seq::<char>::empty());
        assert(scan_up(Seq::<char>::empty(), n as int, max) == Ok::<int, IntErrorKind>(n as int));
        assert(dec(n) == dec(n / 10).push(digit_char(n % 10)));
    }
}

/// The decimal numeral of a `u32` reads back as that `u32`.
pub proof fn lemma_parse_dec(n: u32)
    ensures
        parse_u32(dec(n as nat)) == Some(n),
{
    lemma_dec_digits(n as nat);
    lemma_scan_dec(n as nat, u32::MAX as int);
    assert(is_digit(dec(n as nat)[0]));
}

/// A text without the separator is one piece.
pub proof fn lemma_split_no_sep(a: Seq<char>, c: char)
    requires
        !a.contains(c),
    ensures
        split_char(a, c) == seq![a],
    decreases a.len(),
{
    if a.len() > 0 {
        assert(!a.drop_first().contains(c)) by {
            if a.drop_first().contains(c) {
                let k = choose|k: int| 0 <= k < a.drop_first().len() && a.drop_first()[k] == c;
                assert(a[k + 1] == c);
            }
        }
        lemma_split_no_sep(a.drop_first(), c);
        assert(a[0] != c);
        assert(seq![a[0]] + a.drop_first() =~= a);
        assert(split_char(a, c) =~= seq![a]);
    } else {
        assert(a =~= Seq::<char>::empty());
    }
}

/// Two texts without the separator, joined by it, split back into the two.
pub proof fn lemma_split_one_sep(a: Seq<char>, b: Seq<char>, c: char)
    requires
        !a.contains(c),
        !b.contains(c),
    ensures
        split_char(a + seq![c] + b, c) == seq![a, b],
    decreases a.len(),
{
    let s = a + seq![c] + b;
    if a.len() == 0 {
        assert(a =~= Seq::<char>::empty());
        assert(s[0] == c);
        assert(s.drop_first() =~= b);
        lemma_split_no_sep(b, c);
        assert(split_char(s, c) =~= seq![a, b]);
    } else {
        assert(!a.drop_first().contains(c)) by {
            if a.drop_first().contains(c) {
                let k = choose|k: int| 0 <= k < a.drop_first().len() && a.drop_first()[k] == c;
                assert(a[k + 1] == c);
            }
        }
        lemma_split_one_sep(a.drop_first(), b, c);
        assert(s.drop_first() =~= a.drop_first() + seq![c] + b);
        assert(s[0] == a[0]);
        assert(a[0] != c);
        assert(seq![a[0]] + a.drop_first() =~= a);
        assert(split_char(s, c) =~= seq![a, b]);
    }
}

} // verus!

verus! {

/// A decimal numeral holds no character but digits.
pub proof fn lemma_dec_lacks(n: nat, c: char)
    requires
        !is_digit(c),
    ensures
        !dec(n).contains(c),
{
    lemma_dec_digits(n);
    if dec(n).contains(c) {
        let k = choose|k: int| 0 <= k < dec(n).len() && dec(n)[k] == c;
        assert(is_digit(dec(n)[k]));
    }
}

/// A concatenation holds a character only if one of its parts does.
pub proof fn lemma_concat_lacks(a: Seq<char>, b: Seq<char>, c: char)
    requires
        !a.contains(c),
        !b.contains(c),
    ensures
        !(a + b).contains(c),
{
    if (a + b).contains(c) {
        let k = choose|k: int| 0 <= k < (a + b).len() && (a + b)[k] == c;
        if k < a.len() {
            assert(a[k] == c);
        } else {
            assert(b[k - a.len()] == c);
        }
    }
}

} // verus!
