//! PGN header values read as typed columns: ratings, dates and times, each
//! with the conversion error it records.
use vstd::prelude::*;
use crate::chess::calendar::{self, last_day_of_month, valid_ymd};
use crate::chess::error::{pushed, ErrorAccumulator};
use crate::text::{self, append_chars, append_str, int_error_text, string_of};

verus! {

/// A time of day in microseconds with its UTC offset in seconds.
#[derive(Debug, Clone, Copy, PartialEq, Eq)]
pub struct TimeTz {
    pub micros: i64,
    pub offset_seconds: i32,
}

/// `Conversion error: LABEL='VALUE'`.
pub open spec fn conversion_error(label: Seq<char>, s: Seq<char>) -> Seq<char> {
    "Conversion error: "@ + label + "='"@ + s + "'"@
}

/// `Conversion error: LABEL='VALUE' (chrono: DETAIL)`.
pub open spec fn conversion_error_with(label: Seq<char>, s: Seq<char>, detail: Seq<char>) -> Seq<
    char,
> {
    conversion_error(label, s) + " (chrono: "@ + detail + ")"@
}

/// The accumulated errors after an optional message.
pub open spec fn note(acc: Option<Seq<char>>, msg: Option<Seq<char>>) -> Option<Seq<char>> {
    match msg {
        Some(m) => pushed(acc, m),
        None => acc,
    }
}

fn conversion_error_exec(label: &str, s: &[char], detail: Option<&[char]>) -> (r: String)
    ensures
        r@ == match detail {
            Some(d) => conversion_error_with(label@, s@, d@),
            None => conversion_error(label@, s@),
        },
{
    let mut out: Vec<char> = Vec::new();
    append_str(&mut out, "Conversion error: ");
    append_str(&mut out, label);
    append_str(&mut out, "='");
    append_chars(&mut out, s);
    append_str(&mut out, "'");
    match detail {
        Some(d) => {
            append_str(&mut out, " (chrono: ");
            append_chars(&mut out, d);
            append_str(&mut out, ")");
        },
        None => {},
    }
    string_of(out.as_slice())
}

fn note_error(acc: &mut ErrorAccumulator, label: &str, s: &[char], detail: Option<&[char]>)
    ensures
        final(acc)@ == pushed(
            old(acc)@,
            match detail {
                Some(d) => conversion_error_with(label@, s@, d@),
                None => conversion_error(label@, s@),
            },
        ),
{
    let m = conversion_error_exec(label, s, detail);
    acc.push(m.as_str());
}

pub open spec fn opt_str(o: Option<&str>) -> Option<Seq<char>> {
    match o {
        Some(s) => Some(s@),
        None => None,
    }
}

// ---------------------------------------------------------------------------
// Ratings
// ---------------------------------------------------------------------------

/// An unsigned integer header: absent or blank is `None` without error, an
/// unreadable value is `None` with a conversion error.
pub open spec fn uint_field(raw: Option<Seq<char>>, label: Seq<char>) -> (Option<u32>, Option<
    Seq<char>,
>) {
    match raw {
        None => (None, None),
        Some(r) => {
            let s = text::trim(r);
            if s.len() == 0 {
                (None, None)
            } else {
                match text::parse_u32(s) {
                    Some(v) => (Some(v), None),
                    None => (None, Some(conversion_error(label, s))),
                }
            }
        },
    }
}

pub fn parse_uinteger_field(raw: Option<&str>, label: &str, parse_error: &mut ErrorAccumulator) -> (r:
    Option<u32>)
    ensures
        r == uint_field(opt_str(raw), label@).0,
        final(parse_error)@ == note(old(parse_error)@, uint_field(opt_str(raw), label@).1),
{
    let raw = match raw {
        Some(r) => r,
        None => return None,
    };
    let chars = text::chars_of(raw);
    let s = text::trim_chars(chars.as_slice());
    if s.len() == 0 {
        return None;
    }
    match text::parse_u32_exec(s.as_slice()) {
        Some(v) => Some(v),
        None => {
            note_error(parse_error, label, s.as_slice(), None);
            None
        },
    }
}

// ---------------------------------------------------------------------------
// Dates
// ---------------------------------------------------------------------------

/// The date trimmed, with `.` separators read as `-`.
pub open spec fn date_separators(s: Seq<char>) -> Seq<char> {
    text::trim(s).map_values(|c: char| if c == '.' { '-' } else { c })
}

fn date_separators_exec(s: &[char]) -> (r: Vec<char>)
    ensures
        r@ == date_separators(s@),
{
    let t = text::trim_chars(s);
    let mut out: Vec<char> = Vec::new();
    let mut i: usize = 0;
    while i < t.len()
        invariant
            i <= t@.len(),
            t@ == text::trim(s@),
            out@ == t@.take(i as int).map_values(|c: char| if c == '.' { '-' } else { c }),
        decreases t.len() - i,
    {
        let c = t[i];
        out.push(if c == '.' { '-' } else { c });
        assert(t@.take(i + 1).map_values(|c: char| if c == '.' { '-' } else { c }) =~= t@.take(
            i as int,
        ).map_values(|c: char| if c == '.' { '-' } else { c }).push(
            if c == '.' { '-' } else { c },
        ));
        i += 1;
    }
    assert(t@.take(t@.len() as int) =~= t@);
    out
}

/// A month or day written with `?` is read as the first.
pub open spec fn unknown_as_first(p: Seq<char>) -> Seq<char> {
    if p.contains('?') {
        "01"@
    } else {
        p
    }
}

/// A date header as days from 1970-01-01. A blank value or an unknown year
/// gives no date and no error. Otherwise the value must have three `-` or
/// `.` separated parts; an unknown month or day is the first; a day past
/// the end of the month is the month's last day; the year must be at least
/// 1. Each failure gives no date and a conversion error.
pub open spec fn date_field(raw: Seq<char>, label: Seq<char>) -> (Option<i32>, Option<Seq<char>>) {
    let s = text::trim(raw);
    let norm = date_separators(s);
    let parts = text::split_char(norm, '-');
    if s.len() == 0 {
        (None, None)
    } else if parts.len() != 3 {
        (
            None,
            Some(
                match calendar::chrono_date_parse_error(norm) {
                    None => conversion_error(label, s),
                    Some(e) => conversion_error_with(label, s, e),
                },
            ),
        )
    } else if parts[0].contains('?') {
        (None, None)
    } else {
        match text::parse_signed(parts[0], i32::MIN as int, i32::MAX as int) {
            Err(e) => (None, Some(conversion_error_with(label, s, int_error_text(e)))),
            Ok(year) => match text::parse_unsigned(unknown_as_first(parts[1]), u32::MAX as int) {
                Err(e) => (None, Some(conversion_error_with(label, s, int_error_text(e)))),
                Ok(month) => match text::parse_unsigned(
                    unknown_as_first(parts[2]),
                    u32::MAX as int,
                ) {
                    Err(e) => (None, Some(conversion_error_with(label, s, int_error_text(e)))),
                    Ok(day0) => match last_day_of_month(year as i32, month as u32) {
                        None => (
                            None,
                            Some(conversion_error_with(label, s, "input is out of range"@)),
                        ),
                        Some(last) => {
                            let day: int = if day0 > last {
                                last as int
                            } else {
                                day0
                            };
                            if !valid_ymd(year, month, day) {
                                (
                                    None,
                                    Some(
                                        conversion_error_with(label, s, "input is out of range"@),
                                    ),
                                )
                            } else if year <= 0 {
                                (
                                    None,
                                    Some(
                                        conversion_error_with(label, s, "year must be >= 1"@),
                                    ),
                                )
                            } else {
                                let days = calendar::civil_days(year, month, day);
                                if i32::MIN <= days <= i32::MAX {
                                    (Some(days as i32), None)
                                } else {
                                    (
                                        None,
                                        Some(
                                            conversion_error_with(
                                                label,
                                                s,
                                                "date out of range"@,
                                            ),
                                        ),
                                    )
                                }
                            }
                        },
                    },
                },
            },
        }
    }
}

fn part_or_first(p: &Vec<char>) -> (r: Vec<char>)
    ensures
        r@ == unknown_as_first(p@),
{
    if text::contains_char(p.as_slice(), '?') {
        text::chars_of("01")
    } else {
        p.clone()
    }
}

pub fn parse_date_field(raw: &str, label: &str, parse_error: &mut ErrorAccumulator) -> (r: Option<
    i32,
>)
    ensures
        r == date_field(raw@, label@).0,
        final(parse_error)@ == note(old(parse_error)@, date_field(raw@, label@).1),
{
    let chars = text::chars_of(raw);
    let s = text::trim_chars(chars.as_slice());
    if s.len() == 0 {
        return None;
    }
    let norm = date_separators_exec(s.as_slice());
    proof {
        text::lemma_trim_len(s@);
    }
    let parts = text::split_char_exec(norm.as_slice(), '-');
    if parts.len() != 3 {
        match calendar::date_parse_error(norm.as_slice()) {
            None => note_error(parse_error, label, s.as_slice(), None),
            Some(e) => {
                let ec = text::chars_of(e.as_str());
                note_error(parse_error, label, s.as_slice(), Some(ec.as_slice()));
            },
        }
        return None;
    }
    assert(parts[0]@ == text::views(parts@)[0]);
    assert(parts[1]@ == text::views(parts@)[1]);
    assert(parts[2]@ == text::views(parts@)[2]);
    if text::contains_char(parts[0].as_slice(), '?') {
        return None;
    }
    let month_s = part_or_first(&parts[1]);
    let day_s = part_or_first(&parts[2]);
    let year = match text::parse_i32_result(parts[0].as_slice()) {
        Ok(v) => v,
        Err(e) => {
            let m = text::chars_of(text::int_error_message(e).as_str());
            note_error(parse_error, label, s.as_slice(), Some(m.as_slice()));
            return None;
        },
    };
    let month = match text::parse_u32_result(month_s.as_slice()) {
        Ok(v) => v,
        Err(e) => {
            let m = text::chars_of(text::int_error_message(e).as_str());
            note_error(parse_error, label, s.as_slice(), Some(m.as_slice()));
            return None;
        },
    };
    let mut day = match text::parse_u32_result(day_s.as_slice()) {
        Ok(v) => v,
        Err(e) => {
            let m = text::chars_of(text::int_error_message(e).as_str());
            note_error(parse_error, label, s.as_slice(), Some(m.as_slice()));
            return None;
        },
    };
    let out_of_range = text::chars_of("input is out of range");
    let last_day = match calendar::last_day_of_month_exec(year, month) {
        Some(v) => v,
        None => {
            note_error(parse_error, label, s.as_slice(), Some(out_of_range.as_slice()));
            return None;
        },
    };
    if day > last_day {
        day = last_day;
    }
    if !calendar::ymd_is_valid(year, month, day) {
        note_error(parse_error, label, s.as_slice(), Some(out_of_range.as_slice()));
        return None;
    }
    if year <= 0 {
        let m = text::chars_of("year must be >= 1");
        note_error(parse_error, label, s.as_slice(), Some(m.as_slice()));
        return None;
    }
    let days_i64 = calendar::days_since_epoch(year, month, day);
    if days_i64 < i32::MIN as i64 || days_i64 > i32::MAX as i64 {
        let m = text::chars_of("date out of range");
        note_error(parse_error, label, s.as_slice(), Some(m.as_slice()));
        return None;
    }
    Some(days_i64 as i32)
}

/// Whether a date part is a known number (no `?`, reads as the type).
pub open spec fn known_part(p: Seq<char>, signed: bool) -> bool {
    !p.contains('?') && if signed {
        text::parse_signed(p, i32::MIN as int, i32::MAX as int) is Ok
    } else {
        text::parse_unsigned(p, u32::MAX as int) is Ok
    }
}

/// How complete a date header is: 0 without a known year, else one point
/// for the year and one each for a known month and day.
pub open spec fn date_completeness(raw: Seq<char>) -> u8 {
    let s = text::trim(raw);
    let parts = text::split_char(date_separators(s), '-');
    if s.len() == 0 || parts.len() != 3 || !known_part(parts[0], true) {
        0
    } else {
        (1 + (if known_part(parts[1], false) {
            1int
        } else {
            0
        }) + (if known_part(parts[2], false) {
            1int
        } else {
            0
        })) as u8
    }
}

fn known_part_exec(p: &Vec<char>, signed: bool) -> (r: bool)
    ensures
        r == known_part(p@, signed),
{
    if text::contains_char(p.as_slice(), '?') {
        return false;
    }
    if signed {
        text::parse_i32_result(p.as_slice()).is_ok()
    } else {
        text::parse_u32_result(p.as_slice()).is_ok()
    }
}

pub fn date_completeness_score(raw: &str) -> (r: u8)
    ensures
        r == date_completeness(raw@),
{
    let chars = text::chars_of(raw);
    let s = text::trim_chars(chars.as_slice());
    if s.len() == 0 {
        return 0;
    }
    let norm = date_separators_exec(s.as_slice());
    let parts = text::split_char_exec(norm.as_slice(), '-');
    if parts.len() != 3 {
        return 0;
    }
    assert(parts[0]@ == text::views(parts@)[0]);
    assert(parts[1]@ == text::views(parts@)[1]);
    assert(parts[2]@ == text::views(parts@)[2]);
    if !known_part_exec(&parts[0], true) {
        return 0;
    }
    let mut score: u8 = 1;
    if known_part_exec(&parts[1], false) {
        score += 1;
    }
    if known_part_exec(&parts[2], false) {
        score += 1;
    }
    score
}

/// The label a date header's errors carry, by precedence: `UTCDate`, then
/// `Date`, then `EventDate`.
pub open spec fn date_label(k: int) -> Seq<char> {
    if k == 0 {
        "UTCDate"@
    } else if k == 1 {
        "UTCDate (from Date)"@
    } else {
        "UTCDate (from EventDate)"@
    }
}

fn date_label_exec(k: usize) -> (r: &'static str)
    ensures
        r@ == date_label(k as int),
{
    if k == 0 {
        "UTCDate"
    } else if k == 1 {
        "UTCDate (from Date)"
    } else {
        "UTCDate (from EventDate)"
    }
}

/// `c` placed after every candidate scoring at least as much; a candidate
/// is a header's precedence and its completeness.
pub open spec fn insert_ranked(ranked: Seq<(int, u8)>, c: (int, u8)) -> Seq<(int, u8)>
    decreases ranked.len(),
{
    if ranked.len() == 0 {
        seq![c]
    } else if ranked[0].1 >= c.1 {
        seq![ranked[0]] + insert_ranked(ranked.drop_first(), c)
    } else {
        seq![c] + ranked
    }
}

/// Candidates ordered by completeness, ties kept in the given order.
pub open spec fn rank(cands: Seq<(int, u8)>) -> Seq<(int, u8)>
    decreases cands.len(),
{
    if cands.len() == 0 {
        Seq::empty()
    } else {
        insert_ranked(rank(cands.drop_last()), cands.last())
    }
}

/// The present, non-blank date headers among the first `n`, in precedence
/// order, with their completeness.
pub open spec fn date_candidates(raws: Seq<Option<Seq<char>>>, n: int) -> Seq<(int, u8)>
    decreases n,
{
    if n <= 0 {
        Seq::empty()
    } else {
        let before = date_candidates(raws, n - 1);
        match raws[n - 1] {
            Some(r) => if text::trim(r).len() == 0 {
                before
            } else {
                before.push((n - 1, date_completeness(r)))
            },
            None => before,
        }
    }
}

/// Tries the ranked candidates in turn; the first that gives a date wins,
/// and each one tried before it records its error.
pub open spec fn best_date(
    raws: Seq<Option<Seq<char>>>,
    ranked: Seq<(int, u8)>,
    acc: Option<Seq<char>>,
) -> (Option<i32>, Option<Seq<char>>)
    decreases ranked.len(),
{
    if ranked.len() == 0 {
        (None, acc)
    } else {
        let k = ranked[0].0;
        let (v, msg) = date_field(raws[k].unwrap(), date_label(k));
        let acc2 = note(acc, msg);
        if v is Some {
            (v, acc2)
        } else {
            best_date(raws, ranked.drop_first(), acc2)
        }
    }
}

pub open spec fn pairs_view(v: Seq<(usize, u8)>) -> Seq<(int, u8)> {
    Seq::new(v.len(), |i: int| (v[i].0 as int, v[i].1))
}

fn insert_ranked_exec(ranked: &Vec<(usize, u8)>, c: (usize, u8)) -> (r: Vec<(usize, u8)>)
    ensures
        pairs_view(r@) == insert_ranked(pairs_view(ranked@), (c.0 as int, c.1)),
{
    let ghost rv = pairs_view(ranked@);
    let ghost cv = (c.0 as int, c.1);
    let mut out: Vec<(usize, u8)> = Vec::new();
    let mut i: usize = 0;
    assert(rv.skip(0) =~= rv);
    while i < ranked.len() && ranked[i].1 >= c.1
        invariant
            i <= ranked@.len(),
            rv == pairs_view(ranked@),
            cv == (c.0 as int, c.1),
            pairs_view(out@) == rv.take(i as int),
            insert_ranked(rv, cv) == rv.take(i as int) + insert_ranked(rv.skip(i as int), cv),
        decreases ranked.len() - i,
    {
        assert(rv.skip(i as int)[0] == rv[i as int]);
        assert(rv.skip(i as int).drop_first() =~= rv.skip(i + 1));
        assert(rv[i as int].1 >= cv.1);
        assert(insert_ranked(rv.skip(i as int), cv) == seq![rv[i as int]] + insert_ranked(
            rv.skip(i + 1),
            cv,
        ));
        assert(rv.take(i as int) + (seq![rv[i as int]] + insert_ranked(rv.skip(i + 1), cv))
            =~= rv.take(i + 1) + insert_ranked(rv.skip(i + 1), cv));
        out.push(ranked[i]);
        assert(pairs_view(out@) =~= rv.take(i + 1));
        i += 1;
    }
    let ghost mid = pairs_view(out@);
    out.push(c);
    assert(pairs_view(out@) =~= mid.push(cv));
    let start = i;
    while i < ranked.len()
        invariant
            start <= i <= ranked@.len(),
            rv == pairs_view(ranked@),
            cv == (c.0 as int, c.1),
            pairs_view(out@) == rv.take(start as int).push(cv) + rv.subrange(start as int, i as int),
        decreases ranked.len() - i,
    {
        let ghost before = pairs_view(out@);
        out.push(ranked[i]);
        assert(pairs_view(out@) =~= before.push(rv[i as int]));
        assert(rv.subrange(start as int, i + 1) =~= rv.subrange(start as int, i as int).push(
            rv[i as int],
        ));
        i += 1;
    }
    proof {
        if start < ranked@.len() {
            assert(insert_ranked(rv.skip(start as int), cv) == seq![cv] + rv.skip(start as int));
        } else {
            assert(rv.skip(start as int).len() == 0);
        }
        assert(rv.subrange(start as int, ranked@.len() as int) =~= rv.skip(start as int));
        assert(rv.take(start as int).push(cv) + rv.skip(start as int) =~= rv.take(start as int) + (
        seq![cv] + rv.skip(start as int)));
    }
    out
}

pub open spec fn candidates_valid(raws: Seq<Option<Seq<char>>>, s: Seq<(int, u8)>) -> bool {
    forall|i: int|
        0 <= i < s.len() ==> 0 <= (#[trigger] s[i]).0 < raws.len() && raws[s[i].0] is Some
}

proof fn lemma_candidates_valid(raws: Seq<Option<Seq<char>>>, n: int)
    requires
        n <= raws.len(),
    ensures
        candidates_valid(raws, date_candidates(raws, n)),
    decreases n,
{
    if n > 0 {
        lemma_candidates_valid(raws, n - 1);
    }
}

proof fn lemma_insert_valid(raws: Seq<Option<Seq<char>>>, r: Seq<(int, u8)>, c: (int, u8))
    requires
        candidates_valid(raws, r),
        0 <= c.0 < raws.len() && raws[c.0] is Some,
    ensures
        candidates_valid(raws, insert_ranked(r, c)),
    decreases r.len(),
{
    if r.len() > 0 && r[0].1 >= c.1 {
        lemma_insert_valid(raws, r.drop_first(), c);
        let rest = insert_ranked(r.drop_first(), c);
        assert forall|i: int| 0 <= i < rest.len() + 1 implies 0 <= (#[trigger] (seq![r[0]]
            + rest)[i]).0 < raws.len() && raws[(seq![r[0]] + rest)[i].0] is Some by {
            if i > 0 {
                assert((seq![r[0]] + rest)[i] == rest[i - 1]);
            }
        }
    } else if r.len() > 0 {
        assert forall|i: int| 0 <= i < r.len() + 1 implies 0 <= (#[trigger] (seq![c] + r)[i]).0
            < raws.len() && raws[(seq![c] + r)[i].0] is Some by {
            if i > 0 {
                assert((seq![c] + r)[i] == r[i - 1]);
            }
        }
    }
}

fn date_candidates_exec(raws: &Vec<Option<&str>>) -> (r: Vec<(usize, u8)>)
    requires
        raws@.len() == 3,
    ensures
        pairs_view(r@) == date_candidates(raws@.map_values(|o: Option<&str>| opt_str(o)), 3),
{
    let ghost rv = raws@.map_values(|o: Option<&str>| opt_str(o));
    let mut out: Vec<(usize, u8)> = Vec::new();
    let mut k: usize = 0;
    assert(pairs_view(out@) =~= date_candidates(rv, 0));
    while k < 3
        invariant
            k <= 3,
            raws@.len() == 3,
            rv == raws@.map_values(|o: Option<&str>| opt_str(o)),
            pairs_view(out@) == date_candidates(rv, k as int),
        decreases 3 - k,
    {
        let ghost before = pairs_view(out@);
        match raws[k] {
            Some(raw) => {
                let chars = text::chars_of(raw);
                if !text::is_blank(chars.as_slice()) {
                    out.push((k, date_completeness_score(raw)));
                    assert(pairs_view(out@) =~= before.push((k as int, date_completeness(raw@))));
                }
            },
            None => {},
        }
        k += 1;
    }
    out
}

/// Ranks the date headers by completeness (ties by precedence) and returns
/// the first date that reads; errors of the headers tried are recorded.
pub fn parse_best_date_field(
    utc_date: Option<&str>,
    date: Option<&str>,
    event_date: Option<&str>,
    parse_error: &mut ErrorAccumulator,
) -> (r: Option<i32>)
    ensures
        ({
            let raws = seq![opt_str(utc_date), opt_str(date), opt_str(event_date)];
            let res = best_date(raws, rank(date_candidates(raws, 3)), old(parse_error)@);
            r == res.0 && final(parse_error)@ == res.1
        }),
{
    let ghost raws = seq![opt_str(utc_date), opt_str(date), opt_str(event_date)];
    let mut rs: Vec<Option<&str>> = Vec::new();
    rs.push(utc_date);
    rs.push(date);
    rs.push(event_date);
    assert(rs@.map_values(|o: Option<&str>| opt_str(o)) =~= raws);
    let cands = date_candidates_exec(&rs);
    let ghost cv = pairs_view(cands@);
    proof {
        lemma_candidates_valid(raws, 3);
    }
    let mut ranked: Vec<(usize, u8)> = Vec::new();
    let mut i: usize = 0;
    assert(cv.take(0) =~= Seq::<(int, u8)>::empty());
    assert(pairs_view(ranked@) =~= Seq::<(int, u8)>::empty());
    while i < cands.len()
        invariant
            i <= cands@.len(),
            cv == pairs_view(cands@),
            candidates_valid(raws, cv),
            candidates_valid(raws, pairs_view(ranked@)),
            pairs_view(ranked@) == rank(cv.take(i as int)),
        decreases cands.len() - i,
    {
        assert(cv.take(i + 1).drop_last() =~= cv.take(i as int));
        assert(cv[i as int] == (cands@[i as int].0 as int, cands@[i as int].1));
        proof {
            lemma_insert_valid(raws, pairs_view(ranked@), cv[i as int]);
        }
        ranked = insert_ranked_exec(&ranked, cands[i]);
        i += 1;
    }
    assert(cv.take(cands@.len() as int) =~= cv);
    let ghost all = pairs_view(ranked@);
    let ghost start = parse_error@;
    assert(all == rank(date_candidates(raws, 3)));
    let mut j: usize = 0;
    assert(all.skip(0) =~= all);
    while j < ranked.len()
        invariant
            j <= ranked@.len(),
            all == pairs_view(ranked@),
            candidates_valid(raws, all),
            raws == seq![opt_str(utc_date), opt_str(date), opt_str(event_date)],
            all == rank(date_candidates(raws, 3)),
            start == old(parse_error)@,
            best_date(raws, all, start) == best_date(raws, all.skip(j as int), parse_error@),
        decreases ranked.len() - j,
    {
        assert(all.skip(j as int)[0] == all[j as int]);
        assert(all.skip(j as int).drop_first() =~= all.skip(j + 1));
        let k = ranked[j].0;
        assert(all[j as int].0 == k as int);
        let raw = if k == 0 {
            utc_date
        } else if k == 1 {
            date
        } else {
            event_date
        };
        let raw = match raw {
            Some(x) => x,
            None => {
                proof {
                    assert(false);
                }
                return None;
            },
        };
        let v = parse_date_field(raw, date_label_exec(k), parse_error);
        if v.is_some() {
            return v;
        }
        j += 1;
    }
    None
}

// ---------------------------------------------------------------------------
// Times
// ---------------------------------------------------------------------------

/// `HH:MM` as seconds, hours 0 to 23 and minutes 0 to 59.
pub open spec fn tz_offset(s: Seq<char>) -> Option<i32> {
    let t = text::trim(s);
    match text::find_char(t, ':') {
        Some(i) => match (
            text::parse_signed(t.take(i), i32::MIN as int, i32::MAX as int),
            text::parse_signed(t.skip(i + 1), i32::MIN as int, i32::MAX as int),
        ) {
            (Ok(hh), Ok(mm)) => if 0 <= hh <= 23 && 0 <= mm <= 59 {
                Some((hh * 3600 + mm * 60) as i32)
            } else {
                None
            },
            _ => None,
        },
        None => None,
    }
}

pub fn parse_tz_offset_seconds(s: &[char]) -> (r: Option<i32>)
    ensures
        r == tz_offset(s@),
{
    let t = text::trim_chars(s);
    let i = match text::find_char_exec(t.as_slice(), ':') {
        Some(i) => i,
        None => return None,
    };
    proof {
        text::lemma_find_char(t@, ':');
    }
    let a = text::copy_range(t.as_slice(), 0, i);
    let b = text::copy_range(t.as_slice(), i + 1, t.len());
    assert(a@ =~= t@.take(i as int));
    assert(b@ =~= t@.skip(i + 1));
    let hh = match text::parse_i32_result(a.as_slice()) {
        Ok(v) => v,
        Err(_) => return None,
    };
    let mm = match text::parse_i32_result(b.as_slice()) {
        Ok(v) => v,
        Err(_) => return None,
    };
    if !(0 <= hh && hh <= 23) || !(0 <= mm && mm <= 59) {
        return None;
    }
    Some(hh * 3600 + mm * 60)
}

/// How a time value splits into the clock part and its offset: a final
/// `Z` is UTC, else the first `+` or `-` starts an offset; `Err` when that
/// offset does not read.
pub open spec fn time_split(s: Seq<char>) -> Result<(Seq<char>, i32), ()> {
    if s.len() > 0 && s.last() == 'Z' {
        Ok((s.drop_last(), 0))
    } else {
        match text::find_char(s, '+') {
            Some(i) => match tz_offset(s.skip(i + 1)) {
                Some(o) => Ok((s.take(i), o)),
                None => Err(()),
            },
            None => match text::find_char(s, '-') {
                Some(i) => match tz_offset(s.skip(i + 1)) {
                    Some(o) => Ok((s.take(i), (-o) as i32)),
                    None => Err(()),
                },
                None => Ok((s, 0)),
            },
        }
    }
}

/// A time header (`HH:MM:SS`, optionally `Z` or `+HH:MM` / `-HH:MM`) as a
/// time with offset; blank gives nothing, a bad offset or clock part a
/// conversion error.
pub open spec fn time_field(raw: Seq<char>, label: Seq<char>) -> (Option<TimeTz>, Option<Seq<char>>) {
    let s = text::trim(raw);
    if s.len() == 0 {
        (None, None)
    } else {
        match time_split(s) {
            Err(_) => (None, Some(conversion_error(label, s))),
            Ok((tp, off)) => match calendar::chrono_hms(tp) {
                Err(e) => (None, Some(conversion_error_with(label, s, e))),
                Ok((secs, nanos)) => (
                    Some(
                        TimeTz {
                            micros: (secs * 1_000_000 + nanos / 1000) as i64,
                            offset_seconds: off,
                        },
                    ),
                    None,
                ),
            },
        }
    }
}

pub fn parse_time_tz_field(raw: &str, label: &str, parse_error: &mut ErrorAccumulator) -> (r:
    Option<TimeTz>)
    ensures
        r == time_field(raw@, label@).0,
        final(parse_error)@ == note(old(parse_error)@, time_field(raw@, label@).1),
{
    let chars = text::chars_of(raw);
    let s = text::trim_chars(chars.as_slice());
    if s.len() == 0 {
        return None;
    }
    let n = s.len();
    let (time_part, offset_seconds) = if s[n - 1] == 'Z' {
        let t = text::copy_range(s.as_slice(), 0, n - 1);
        assert(t@ =~= s@.drop_last());
        (t, 0i32)
    } else {
        match text::find_char_exec(s.as_slice(), '+') {
            Some(i) => {
                proof {
                    text::lemma_find_char(s@, '+');
                }
                let off = text::copy_range(s.as_slice(), i + 1, n);
                assert(off@ =~= s@.skip(i + 1));
                match parse_tz_offset_seconds(off.as_slice()) {
                    Some(o) => {
                        let t = text::copy_range(s.as_slice(), 0, i);
                        assert(t@ =~= s@.take(i as int));
                        (t, o)
                    },
                    None => {
                        note_error(parse_error, label, s.as_slice(), None);
                        return None;
                    },
                }
            },
            None => match text::find_char_exec(s.as_slice(), '-') {
                Some(i) => {
                    proof {
                        text::lemma_find_char(s@, '-');
                    }
                    let off = text::copy_range(s.as_slice(), i + 1, n);
                    assert(off@ =~= s@.skip(i + 1));
                    match parse_tz_offset_seconds(off.as_slice()) {
                        Some(o) => {
                            let t = text::copy_range(s.as_slice(), 0, i);
                            assert(t@ =~= s@.take(i as int));
                            (t, -o)
                        },
                        None => {
                            note_error(parse_error, label, s.as_slice(), None);
                            return None;
                        },
                    }
                },
                None => (s.clone(), 0i32),
            },
        }
    };
    match calendar::parse_hms(time_part.as_slice()) {
        Ok((secs, nanos)) => {
            let micros: i64 = (secs as i64) * 1_000_000 + (nanos as i64) / 1000;
            Some(TimeTz { micros, offset_seconds })
        },
        Err(e) => {
            let ec = text::chars_of(e.as_str());
            note_error(parse_error, label, s.as_slice(), Some(ec.as_slice()));
            None
        },
    }
}

/// The `UTCTime` header, else the `Time` header; the first that reads
/// wins, and each one tried records its error.
pub open spec fn best_time(
    utc_time: Option<Seq<char>>,
    time: Option<Seq<char>>,
    acc: Option<Seq<char>>,
) -> (Option<TimeTz>, Option<Seq<char>>) {
    let (v1, acc1) = match utc_time {
        Some(r) => {
            let (v, m) = time_field(r, "UTCTime"@);
            (v, note(acc, m))
        },
        None => (None, acc),
    };
    if v1 is Some {
        (v1, acc1)
    } else {
        match time {
            Some(r) => {
                let (v, m) = time_field(r, "UTCTime (from Time)"@);
                (v, note(acc1, m))
            },
            None => (None, acc1),
        }
    }
}

pub fn parse_best_time_tz_field(
    utc_time: Option<&str>,
    time: Option<&str>,
    parse_error: &mut ErrorAccumulator,
) -> (r: Option<TimeTz>)
    ensures
        r == best_time(opt_str(utc_time), opt_str(time), old(parse_error)@).0,
        final(parse_error)@ == best_time(opt_str(utc_time), opt_str(time), old(parse_error)@).1,
{
    match utc_time {
        Some(raw) => {
            let v = parse_time_tz_field(raw, "UTCTime", parse_error);
            if v.is_some() {
                return v;
            }
        },
        None => {},
    }
    match time {
        Some(raw) => parse_time_tz_field(raw, "UTCTime (from Time)", parse_error),
        None => None,
    }
}

/// Law: a rating written in decimal reads back as that rating, with no
/// error.
pub proof fn law_rating_reads_back(n: u32, label: Seq<char>)
    ensures
        uint_field(Some(text::dec(n as nat)), label) == (Some(n), None::<Seq<char>>),
{
    let d = text::dec(n as nat);
    text::lemma_dec_digits(n as nat);
    text::lemma_parse_dec(n);
    assert(!text::is_ws(d[0]));
    assert(!text::is_ws(d.last()));
    assert(text::trim_start(d) == d);
    assert(text::trim_end(d) == d);
}

} // verus!
