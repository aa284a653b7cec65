//! Inference of time controls written in common non-PGN notations
//! (minute shorthands, apostrophes, FIDE wordings, free text).
use vstd::prelude::*;
use crate::pattern::{self, group, groups_view, opt_groups_view};
use crate::text::{self, parse_u32_exec};
use super::{
    clone_strings, inferred_model, inferred_parsed, minutes_to_seconds, opt_model,
    push_warning, string_views, Mode, ParsedTimeControl, Period, TimeControlModel,
};

verus! {

pub const TRAILING_QUALIFIER_SUFFIX_RE: &'static str = r"^(.+?)\s+(\p{L}+)$";

pub const G_PREFIX_NUMERIC_RE: &'static str = r"^(\d+)\s*(?:\+\s*(\d+)\s*(?:inc|(?:seconds?|secs?|sec\.?|s\.?|sek|ss|secss)\s*(?:(?:added\s+)?(?:per\s*move|/move|/mv|/m)))?)?$";

pub const APOSTROPHE_PER_MOVE_SHORTHAND_RE: &'static str = r"(?i)^\s*(\d+)\s*'\s*\+\s*(\d+)\s*''\s*/\s*(?:m|mv|move)\b.*$";

pub const COMPACT_MINUTE_SECOND_INCREMENT_RE: &'static str = r"(?i)^\s*(?:[\p{L}\s]+:\s*)?(\d+)\s*(?:minutes?|mins?|mns?|min(?:\.|utes?)?|m\.?|m)?\s*\+\s*(\d+)\s*(?:seconds?|secs?|sec\.?|s\.?|sek|ss|secss)\b(?:\s*(?:increment|inc|incr|added|additional))?(?:\s*(?:(?:from\s*move\s*\w+)|(?:per\s*move|/move|/mv|/m)))?\s*$";

pub const CLOCK_STYLE_INCREMENT_RE: &'static str = r"(?i)^\s*(\d+)\s*:\s*([0-5]?\d)(?:\.\d+)?\s*\+\s*(\d+)\s*(?:seconds?|secs?|sec\.?|s\.?|sek|ss|secss)\b(?:\s*(?:increment|inc|incr|added|additional))?(?:\s*(?:(?:from\s*move\s*\w+)|(?:per\s*move|/move|/mv|/m)))?\s*$";

pub const COMPACT_FIDE_APOSTROPHE_WITH_MOVE_RE: &'static str = r"(?i)^\s*(\d+)\s*'\s*/\s*(\d+)\s*(?:m|moves?)?\s*(?:\+|&)\s*(\d+)\s*'\s*/\s*(?:g|end)\s*(?:\+|&)\s*(\d+)\s*(?:''?)?\s*/\s*(?:m|mv|move)\b.*$";

pub const COMPACT_FIDE_APOSTROPHE_G_COMPACT_RE: &'static str = r"(?i)^\s*(\d+)\s*'\s*/\s*(\d+)\s*(?:m|moves?)?\s*(?:\+|&)\s*(\d+)\s*'\s*/\s*(?:g|end)\s*(?:\+|&)\s*(\d+)\s*''\s*$";

pub const COMPACT_FIDE_APOSTROPHE_BONUS_RE: &'static str = r"(?i)^\s*(\d+)\s*'\s*/\s*(\d+)\s*(?:m|moves?)\s*(?:\+|&)\s*(\d+)\s*'\s*(?:\+|&)\s*(\d+)\s*''\s*bonus(?:\s*increment)?\s*$";

pub const FIDE_ADDITIONAL_WORDING_RE: &'static str = r"(?i)^\s*(\d+)\s*(?:minutes?|mins?|mns?|min(?:\.|utes?)?|m\.?|m)\s*\+\s*(\d+)\s*(?:seconds?|secs?|sec\.?|s\.?|sek|ss|secss)\s*additional\s*\+\s*(\d+)\s*(?:minutes?|mins?|mns?|min(?:\.|utes?)?|m\.?|m)\s*after\s*move\s*40\s*$";

pub const COMPACT_FIDE_TRIPLE_PLUS_RE: &'static str = r"(?i)^\s*(\d+)\s*\+\s*(\d+)\s*\+\s*(\d+)\s*(?:(?:seconds?|secs?|sec\.?|s\.?|sek|ss|secss)\s*(?:per\s*move|/move|/mv|/m)|after\s*40\s*moves?)\s*$";

pub const TWO_STAGE_SLASH_SHORTHAND_RE: &'static str = r"^\s*(\d+)\s*\+\s*(\d+)\s*/\s*(\d+)\s*\+\s*(\d+)\s*$";

pub const FREETEXT_FIDE_STAGE_RE: &'static str = r"(\d+)\s*(?:minutes?|mins?|mns?|min(?:\.|utes?)?|m\.?|m)\s*(?:for\s*(\d+)\s*(?:moves?|mv|mvs?)|/\s*(\d+))";

pub const FREETEXT_FIDE_REST_RE: &'static str = r"(?:\+|,|then\s+)\s*(\d+)\s*(?:minutes?|mins?|mns?|min(?:\.|utes?)?|m\.?|m)\s*(?:for\s*(?:the\s*)?rest|rest)?";

pub const FREETEXT_MINUTE_RE: &'static str = r"(\d+)\s*(?:minutes?|mins?|mns?|min(?:\.|utes?)?|m\.?|m)\b";

pub const FREETEXT_SECOND_RE: &'static str = r"(\d+)\s*(?:seconds?|secs?|sec\.?|s\.?|sek|ss|secss)\b";

pub const FREETEXT_INC_RE: &'static str = r"(\d+)\s*(?:seconds?|secs?|sec\.?|s\.?|sek|ss|secss)\s*(?:(?:added\s+)?(?:per\s*move|/move|/mv|/m))";

/// Group `i` read as a `u32`.
pub open spec fn group_u32(c: Seq<Option<Seq<char>>>, i: int) -> Option<u32> {
    match group(c, i) {
        Some(g) => text::parse_u32(g),
        None => None,
    }
}

pub open spec fn or_zero(o: Option<u32>) -> u32 {
    match o {
        Some(v) => v,
        None => 0,
    }
}

/// One inferred stage without a move count; `base` is `None` when computing
/// the base overflowed.
pub open spec fn single_model(
    input: Seq<char>,
    w: Seq<Seq<char>>,
    code: Seq<char>,
    base: Option<u32>,
    inc: Option<u32>,
) -> TimeControlModel {
    inferred_model(
        input,
        w.push(code),
        seq![Period { moves: None, base_seconds: or_zero(base), increment_seconds: inc }],
        base is None,
    )
}

/// Two inferred stages; a base is `None` when computing it overflowed.
pub open spec fn two_stage_model(
    input: Seq<char>,
    w: Seq<Seq<char>>,
    code: Seq<char>,
    moves: Option<u32>,
    first: Option<u32>,
    first_inc: Option<u32>,
    second: Option<u32>,
    second_inc: Option<u32>,
) -> TimeControlModel {
    inferred_model(
        input,
        w.push(code),
        seq![
            Period { moves, base_seconds: or_zero(first), increment_seconds: first_inc },
            Period { moves: None, base_seconds: or_zero(second), increment_seconds: second_inc },
        ],
        first is None || second is None,
    )
}

fn group_u32_exec(c: &Vec<Option<Vec<char>>>, i: usize) -> (r: Option<u32>)
    ensures
        r == group_u32(groups_view(c@), i as int),
{
    match pattern::group_exec(c, i) {
        Some(g) => parse_u32_exec(g.as_slice()),
        None => None,
    }
}

fn single_stage(input: &[char], warnings: &Vec<String>, code: &str, base: Option<u32>, inc: Option<u32>) -> (r:
    ParsedTimeControl)
    ensures
        r@ == single_model(input@, string_views(warnings@), code@, base, inc),
{
    let mut w = clone_strings(warnings);
    push_warning(&mut w, code);
    let overflow = base.is_none();
    let b: u32 = match base {
        Some(v) => v,
        None => 0,
    };
    let mut periods: Vec<Period> = Vec::new();
    periods.push(Period { moves: None, base_seconds: b, increment_seconds: inc });
    assert(periods@ =~= seq![Period { moves: None, base_seconds: or_zero(base), increment_seconds: inc }]);
    inferred_parsed(input, w, periods, overflow)
}

fn two_stage(
    input: &[char],
    warnings: &Vec<String>,
    code: &str,
    moves: Option<u32>,
    first: Option<u32>,
    first_inc: Option<u32>,
    second: Option<u32>,
    second_inc: Option<u32>,
) -> (r: ParsedTimeControl)
    ensures
        r@ == two_stage_model(input@,
            string_views(warnings@),
            code@,
            moves,
            first,
            first_inc,
            second,
            second_inc,
        ),
{
    let mut w = clone_strings(warnings);
    push_warning(&mut w, code);
    let overflow = first.is_none() || second.is_none();
    let a: u32 = match first {
        Some(v) => v,
        None => 0,
    };
    let b: u32 = match second {
        Some(v) => v,
        None => 0,
    };
    let mut periods: Vec<Period> = Vec::new();
    periods.push(Period { moves, base_seconds: a, increment_seconds: first_inc });
    periods.push(Period { moves: None, base_seconds: b, increment_seconds: second_inc });
    assert(periods@ =~= seq![
        Period { moves, base_seconds: or_zero(first), increment_seconds: first_inc },
        Period { moves: None, base_seconds: or_zero(second), increment_seconds: second_inc },
    ]);
    inferred_parsed(input, w, periods, overflow)
}

/// A pattern whose groups 1 and 2 are base minutes and increment seconds.
pub open spec fn minutes_plus_seconds(
    pat: Seq<char>,
    code: Seq<char>,
    input: Seq<char>,
    w: Seq<Seq<char>>,
) -> Option<TimeControlModel> {
    match pattern::regex_captures(pat, input) {
        Some(c) => minutes_plus_seconds_groups(c, code, input, w),
        None => None,
    }
}

/// From the groups of a match: group 1 holds base minutes, group 2 the
/// increment in seconds.
pub open spec fn minutes_plus_seconds_groups(
    c: Seq<Option<Seq<char>>>,
    code: Seq<char>,
    input: Seq<char>,
    w: Seq<Seq<char>>,
) -> Option<TimeControlModel> {
    match (group_u32(c, 1), group_u32(c, 2)) {
        (Some(b), Some(i)) => Some(single_model(input, w, code, minutes_to_seconds(b), Some(i))),
        _ => None,
    }
}

fn try_minutes_plus_seconds(pat: &str, code: &str, input: &[char], warnings: &Vec<String>) -> (r:
    Option<ParsedTimeControl>)
    ensures
        opt_model(r) == minutes_plus_seconds(pat@, code@, input@, string_views(warnings@)),
{
    match pattern::captures(pat, input) {
        Some(c) => minutes_plus_seconds_from_groups(&c, code, input, warnings),
        None => None,
    }
}

/// From the groups of a match: group 1 holds base minutes, group 2 the
/// increment in seconds.
pub fn minutes_plus_seconds_from_groups(
    caps: &Vec<Option<Vec<char>>>,
    code: &str,
    input: &[char],
    warnings: &Vec<String>,
) -> (r: Option<ParsedTimeControl>)
    ensures
        opt_model(r) == minutes_plus_seconds_groups(groups_view(caps@), code@, input@, string_views(warnings@)),
{
    let b = match group_u32_exec(caps, 1) {
        Some(v) => v,
        None => return None,
    };
    let i = match group_u32_exec(caps, 2) {
        Some(v) => v,
        None => return None,
    };
    Some(single_stage(input, warnings, code, super::checked_minutes_to_seconds(b), Some(i)))
}

/// `M'+S''/m...`: minutes plus seconds per move.
pub open spec fn apostrophe_per_move_shorthand(input: Seq<char>, w: Seq<Seq<char>>) -> Option<
    TimeControlModel,
> {
    minutes_plus_seconds(
        APOSTROPHE_PER_MOVE_SHORTHAND_RE@,
        "interpreted_apostrophe_per_move_suffix"@,
        input,
        w,
    )
}

pub fn try_apostrophe_per_move_shorthand(input: &[char], warnings: &Vec<String>) -> (r: Option<
    ParsedTimeControl,
>)
    ensures
        opt_model(r) == apostrophe_per_move_shorthand(input@, string_views(warnings@)),
{
    try_minutes_plus_seconds(
        APOSTROPHE_PER_MOVE_SHORTHAND_RE,
        "interpreted_apostrophe_per_move_suffix",
        input,
        warnings,
    )
}

/// `15 min + 10 sec` and similar: minutes plus an increment in seconds.
pub open spec fn compact_minute_second_increment(input: Seq<char>, w: Seq<Seq<char>>) -> Option<
    TimeControlModel,
> {
    minutes_plus_seconds(
        COMPACT_MINUTE_SECOND_INCREMENT_RE@,
        "interpreted_compact_minute_second_increment"@,
        input,
        w,
    )
}

pub fn try_compact_minute_second_increment(input: &[char], warnings: &Vec<String>) -> (r: Option<
    ParsedTimeControl,
>)
    ensures
        opt_model(r) == compact_minute_second_increment(input@, string_views(warnings@)),
{
    try_minutes_plus_seconds(
        COMPACT_MINUTE_SECOND_INCREMENT_RE,
        "interpreted_compact_minute_second_increment",
        input,
        warnings,
    )
}

/// `H:MM + S sec`: a clock-style base in hours and minutes.
pub open spec fn clock_style_increment(input: Seq<char>, w: Seq<Seq<char>>) -> Option<
    TimeControlModel,
> {
    match pattern::regex_captures(CLOCK_STYLE_INCREMENT_RE@, input) {
        Some(c) => clock_style_increment_groups(c, input, w),
        None => None,
    }
}

/// From the groups of a match: hours, minutes and increment seconds in
/// groups 1 to 3.
pub open spec fn clock_style_increment_groups(
    c: Seq<Option<Seq<char>>>,
    input: Seq<char>,
    w: Seq<Seq<char>>,
) -> Option<TimeControlModel> {
    match (group_u32(c, 1), group_u32(c, 2), group_u32(c, 3)) {
        (Some(h), Some(m), Some(i)) => Some(
            single_model(input,
                w,
                "interpreted_clock_style_base"@,
                super::hours_minutes_to_seconds(h, m),
                Some(i),
            ),
        ),
        _ => None,
    }
}

pub fn try_clock_style_increment(input: &[char], warnings: &Vec<String>) -> (r: Option<
    ParsedTimeControl,
>)
    ensures
        opt_model(r) == clock_style_increment(input@, string_views(warnings@)),
{
    match pattern::captures(CLOCK_STYLE_INCREMENT_RE, input) {
        Some(c) => clock_style_increment_from_groups(&c, input, warnings),
        None => None,
    }
}

/// From the groups of a match: hours, minutes and increment seconds in
/// groups 1 to 3.
pub fn clock_style_increment_from_groups(
    caps: &Vec<Option<Vec<char>>>,
    input: &[char],
    warnings: &Vec<String>,
) -> (r: Option<ParsedTimeControl>)
    ensures
        opt_model(r) == clock_style_increment_groups(groups_view(caps@), input@, string_views(warnings@)),
{
    let h = match group_u32_exec(caps, 1) {
        Some(v) => v,
        None => return None,
    };
    let m = match group_u32_exec(caps, 2) {
        Some(v) => v,
        None => return None,
    };
    let i = match group_u32_exec(caps, 3) {
        Some(v) => v,
        None => return None,
    };
    Some(
        single_stage(input,
            warnings,
            "interpreted_clock_style_base",
            super::checked_hours_minutes_to_seconds(h, m),
            Some(i),
        ),
    )
}

/// Which compact FIDE apostrophe wording matched, with its groups.
pub open spec fn compact_fide_match(input: Seq<char>) -> Option<(Seq<Option<Seq<char>>>, Seq<char>)> {
    match pattern::regex_captures(COMPACT_FIDE_APOSTROPHE_WITH_MOVE_RE@, input) {
        Some(c) => Some((c, "interpreted_compact_fide_apostrophe"@)),
        None => match pattern::regex_captures(COMPACT_FIDE_APOSTROPHE_G_COMPACT_RE@, input) {
            Some(c) => Some((c, "interpreted_compact_fide_apostrophe"@)),
            None => match pattern::regex_captures(COMPACT_FIDE_APOSTROPHE_BONUS_RE@, input) {
                Some(c) => Some((c, "interpreted_compact_fide_bonus_wording"@)),
                None => None,
            },
        },
    }
}

/// `90'/40m + 30'/g + 30''/m`: base minutes for a number of moves, then the
/// rest in minutes, both with the same increment.
pub open spec fn compact_fide_apostrophe_shorthand(input: Seq<char>, w: Seq<Seq<char>>) -> Option<
    TimeControlModel,
> {
    match compact_fide_match(input) {
        Some((c, code)) => compact_fide_apostrophe_groups(c, code, input, w),
        None => None,
    }
}

/// From the groups of a match: base minutes, moves, the rest in minutes and
/// the increment in seconds, in groups 1 to 4.
pub open spec fn compact_fide_apostrophe_groups(
    c: Seq<Option<Seq<char>>>,
    code: Seq<char>,
    input: Seq<char>,
    w: Seq<Seq<char>>,
) -> Option<TimeControlModel> {
    match (group_u32(c, 1), group_u32(c, 2), group_u32(c, 3), group_u32(c, 4)) {
        (Some(b), Some(mv), Some(rest), Some(i)) => Some(
            two_stage_model(
                input,
                w,
                code,
                Some(mv),
                minutes_to_seconds(b),
                Some(i),
                minutes_to_seconds(rest),
                Some(i),
            ),
        ),
        _ => None,
    }
}

pub fn try_compact_fide_apostrophe_shorthand(input: &[char], warnings: &Vec<String>) -> (r: Option<
    ParsedTimeControl,
>)
    ensures
        opt_model(r) == compact_fide_apostrophe_shorthand(input@, string_views(warnings@)),
{
    let (caps, code) = match pattern::captures(COMPACT_FIDE_APOSTROPHE_WITH_MOVE_RE, input) {
        Some(c) => (c, "interpreted_compact_fide_apostrophe"),
        None => match pattern::captures(COMPACT_FIDE_APOSTROPHE_G_COMPACT_RE, input) {
            Some(c) => (c, "interpreted_compact_fide_apostrophe"),
            None => match pattern::captures(COMPACT_FIDE_APOSTROPHE_BONUS_RE, input) {
                Some(c) => (c, "interpreted_compact_fide_bonus_wording"),
                None => return None,
            },
        },
    };
    assert(compact_fide_match(input@) == Some((groups_view(caps@), code@)));
    compact_fide_apostrophe_from_groups(&caps, code, input, warnings)
}

/// From the groups of a match: base minutes, moves, the rest in minutes and
/// the increment in seconds, in groups 1 to 4.
pub fn compact_fide_apostrophe_from_groups(
    caps: &Vec<Option<Vec<char>>>,
    code: &str,
    input: &[char],
    warnings: &Vec<String>,
) -> (r: Option<ParsedTimeControl>)
    ensures
        opt_model(r) == compact_fide_apostrophe_groups(groups_view(caps@), code@, input@, string_views(warnings@)),
{
    let b = match group_u32_exec(caps, 1) {
        Some(v) => v,
        None => return None,
    };
    let mv = match group_u32_exec(caps, 2) {
        Some(v) => v,
        None => return None,
    };
    let rest = match group_u32_exec(caps, 3) {
        Some(v) => v,
        None => return None,
    };
    let i = match group_u32_exec(caps, 4) {
        Some(v) => v,
        None => return None,
    };
    Some(
        two_stage(input,
            warnings,
            code,
            Some(mv),
            super::checked_minutes_to_seconds(b),
            Some(i),
            super::checked_minutes_to_seconds(rest),
            Some(i),
        ),
    )
}

/// A pattern whose groups give two stages' values: `order` says which group
/// holds the base, the increment and the rest (FIDE classical, 40 moves).
pub open spec fn fide_forty(
    pat: Seq<char>,
    code: Seq<char>,
    base_group: int,
    inc_group: int,
    rest_group: int,
    input: Seq<char>,
    w: Seq<Seq<char>>,
) -> Option<TimeControlModel> {
    match pattern::regex_captures(pat, input) {
        Some(c) => fide_forty_groups(c, code, base_group, inc_group, rest_group, input, w),
        None => None,
    }
}

/// From the groups of a match: base minutes, increment seconds and the
/// rest in minutes, in the groups given; 40 moves to the first stage.
pub open spec fn fide_forty_groups(
    c: Seq<Option<Seq<char>>>,
    code: Seq<char>,
    base_group: int,
    inc_group: int,
    rest_group: int,
    input: Seq<char>,
    w: Seq<Seq<char>>,
) -> Option<TimeControlModel> {
    match (group_u32(c, base_group), group_u32(c, inc_group), group_u32(c, rest_group)) {
        (Some(b), Some(i), Some(rest)) => Some(
            two_stage_model(input,
                w,
                code,
                Some(40),
                minutes_to_seconds(b),
                Some(i),
                minutes_to_seconds(rest),
                Some(i),
            ),
        ),
        _ => None,
    }
}

fn try_fide_forty(
    pat: &str,
    code: &str,
    base_group: usize,
    inc_group: usize,
    rest_group: usize,
    input: &[char],
    warnings: &Vec<String>,
) -> (r: Option<ParsedTimeControl>)
    ensures
        opt_model(r) == fide_forty(
            pat@,
            code@,
            base_group as int,
            inc_group as int,
            rest_group as int,
            input@,
            string_views(warnings@),
        ),
{
    match pattern::captures(pat, input) {
        Some(c) => fide_forty_from_groups(&c, code, base_group, inc_group, rest_group, input, warnings),
        None => None,
    }
}

/// From the groups of a match: base minutes, increment seconds and the
/// rest in minutes, in the groups given; 40 moves to the first stage.
pub fn fide_forty_from_groups(
    caps: &Vec<Option<Vec<char>>>,
    code: &str,
    base_group: usize,
    inc_group: usize,
    rest_group: usize,
    input: &[char],
    warnings: &Vec<String>,
) -> (r: Option<ParsedTimeControl>)
    ensures
        opt_model(r) == fide_forty_groups(groups_view(caps@), code@, base_group as int, inc_group as int, rest_group as int, input@, string_views(warnings@)),
{
    let b = match group_u32_exec(caps, base_group) {
        Some(v) => v,
        None => return None,
    };
    let i = match group_u32_exec(caps, inc_group) {
        Some(v) => v,
        None => return None,
    };
    let rest = match group_u32_exec(caps, rest_group) {
        Some(v) => v,
        None => return None,
    };
    Some(
        two_stage(input,
            warnings,
            code,
            Some(40),
            super::checked_minutes_to_seconds(b),
            Some(i),
            super::checked_minutes_to_seconds(rest),
            Some(i),
        ),
    )
}

/// `90 min + 30 sec additional + 30 min after move 40`.
pub open spec fn fide_additional_wording(input: Seq<char>, w: Seq<Seq<char>>) -> Option<
    TimeControlModel,
> {
    fide_forty(FIDE_ADDITIONAL_WORDING_RE@, "interpreted_fide_additional_wording"@, 1, 2, 3, input, w)
}

pub fn try_fide_additional_wording(input: &[char], warnings: &Vec<String>) -> (r: Option<
    ParsedTimeControl,
>)
    ensures
        opt_model(r) == fide_additional_wording(input@, string_views(warnings@)),
{
    try_fide_forty(
        FIDE_ADDITIONAL_WORDING_RE,
        "interpreted_fide_additional_wording",
        1,
        2,
        3,
        input,
        warnings,
    )
}

/// `90+30+30 sec per move`: base minutes, rest minutes, increment seconds.
pub open spec fn compact_fide_triple_plus(input: Seq<char>, w: Seq<Seq<char>>) -> Option<
    TimeControlModel,
> {
    fide_forty(COMPACT_FIDE_TRIPLE_PLUS_RE@, "interpreted_compact_fide_triple_plus"@, 1, 3, 2, input, w)
}

pub fn try_compact_fide_triple_plus(input: &[char], warnings: &Vec<String>) -> (r: Option<
    ParsedTimeControl,
>)
    ensures
        opt_model(r) == compact_fide_triple_plus(input@, string_views(warnings@)),
{
    try_fide_forty(
        COMPACT_FIDE_TRIPLE_PLUS_RE,
        "interpreted_compact_fide_triple_plus",
        1,
        3,
        2,
        input,
        warnings,
    )
}

/// `M+I/M+I`: two stages of minutes plus increment.
pub open spec fn two_stage_slash_shorthand(input: Seq<char>, w: Seq<Seq<char>>) -> Option<
    TimeControlModel,
> {
    match pattern::regex_captures(TWO_STAGE_SLASH_SHORTHAND_RE@, input) {
        Some(c) => two_stage_slash_shorthand_groups(c, input, w),
        None => None,
    }
}

/// From the groups of a match: minutes and increment of each of two
/// stages, in groups 1 to 4.
pub open spec fn two_stage_slash_shorthand_groups(
    c: Seq<Option<Seq<char>>>,
    input: Seq<char>,
    w: Seq<Seq<char>>,
) -> Option<TimeControlModel> {
    match (group_u32(c, 1), group_u32(c, 2), group_u32(c, 3), group_u32(c, 4)) {
        (Some(a), Some(ai), Some(b), Some(bi)) => Some(
            two_stage_model(input,
                w,
                "interpreted_two_stage_slash_shorthand"@,
                None,
                minutes_to_seconds(a),
                Some(ai),
                minutes_to_seconds(b),
                Some(bi),
            ),
        ),
        _ => None,
    }
}

pub fn try_two_stage_slash_shorthand(input: &[char], warnings: &Vec<String>) -> (r: Option<
    ParsedTimeControl,
>)
    ensures
        opt_model(r) == two_stage_slash_shorthand(input@, string_views(warnings@)),
{
    match pattern::captures(TWO_STAGE_SLASH_SHORTHAND_RE, input) {
        Some(c) => two_stage_slash_shorthand_from_groups(&c, input, warnings),
        None => None,
    }
}

/// From the groups of a match: minutes and increment of each of two
/// stages, in groups 1 to 4.
pub fn two_stage_slash_shorthand_from_groups(
    caps: &Vec<Option<Vec<char>>>,
    input: &[char],
    warnings: &Vec<String>,
) -> (r: Option<ParsedTimeControl>)
    ensures
        opt_model(r) == two_stage_slash_shorthand_groups(groups_view(caps@), input@, string_views(warnings@)),
{
    let a = match group_u32_exec(caps, 1) {
        Some(v) => v,
        None => return None,
    };
    let ai = match group_u32_exec(caps, 2) {
        Some(v) => v,
        None => return None,
    };
    let b = match group_u32_exec(caps, 3) {
        Some(v) => v,
        None => return None,
    };
    let bi = match group_u32_exec(caps, 4) {
        Some(v) => v,
        None => return None,
    };
    Some(
        two_stage(input,
            warnings,
            "interpreted_two_stage_slash_shorthand",
            None,
            super::checked_minutes_to_seconds(a),
            Some(ai),
            super::checked_minutes_to_seconds(b),
            Some(bi),
        ),
    )
}

/// The first of two results that is present.
pub open spec fn first_some(a: Option<TimeControlModel>, b: Option<TimeControlModel>) -> Option<
    TimeControlModel,
> {
    if a is Some {
        a
    } else {
        b
    }
}

/// Seconds written as `S''`, kept as seconds.
pub open spec fn seconds_only_model(input: Seq<char>, w: Seq<Seq<char>>, seconds: u32) -> TimeControlModel {
    TimeControlModel {
        raw: input,
        normalized: Some(text::dec(seconds as nat)),
        periods: seq![Period { moves: None, base_seconds: seconds, increment_seconds: None }],
        mode: Mode::Normal,
        warnings: w,
        inferred: true,
        overflow: false,
    }
}

/// Apostrophe notation: `M'S''` or `M'+S''` (minutes and increment
/// seconds), `S''` (seconds), `M'` (minutes).
pub open spec fn apostrophe_notation(input: Seq<char>, w: Seq<Seq<char>>) -> Option<
    TimeControlModel,
> {
    let code = "interpreted_apostrophe_notation"@;
    if input.len() >= 2 && input[input.len() - 2] == '\'' && input[input.len() - 1] == '\'' {
        let wd = input.take(input.len() - 2);
        match text::find_char(wd, '\'') {
            Some(pos) => match text::parse_u32(wd.take(pos)) {
                Some(minutes) => {
                    let after = wd.skip(pos + 1);
                    let secs_text = if after.len() > 0 && after[0] == '+' {
                        after.drop_first()
                    } else {
                        after
                    };
                    let seconds = if secs_text.len() == 0 {
                        Some(0u32)
                    } else {
                        text::parse_u32(secs_text)
                    };
                    match seconds {
                        Some(sec) => Some(
                            single_model(input, w, code, minutes_to_seconds(minutes), Some(sec)),
                        ),
                        None => None,
                    }
                },
                None => None,
            },
            None => match text::parse_u32(wd) {
                Some(seconds) => Some(seconds_only_model(input, w.push(code), seconds)),
                None => None,
            },
        }
    } else if input.len() >= 1 && input.last() == '\'' {
        match text::parse_u32(input.drop_last()) {
            Some(m) => Some(single_model(input, w, code, minutes_to_seconds(m), None)),
            None => None,
        }
    } else {
        None
    }
}

pub fn try_apostrophe_notation(input: &[char], warnings: &Vec<String>) -> (r: Option<
    ParsedTimeControl,
>)
    ensures
        opt_model(r) == apostrophe_notation(input@, string_views(warnings@)),
{
    let n = input.len();
    if n >= 2 && input[n - 2] == '\'' && input[n - 1] == '\'' {
        let wd = text::copy_range(input, 0, n - 2);
        assert(wd@ =~= input@.take(n - 2));
        match text::find_char_exec(wd.as_slice(), '\'') {
            Some(pos) => {
                proof {
                    text::lemma_find_char(wd@, '\'');
                }
                let head = text::copy_range(wd.as_slice(), 0, pos);
                assert(head@ =~= wd@.take(pos as int));
                let minutes = match parse_u32_exec(head.as_slice()) {
                    Some(v) => v,
                    None => return None,
                };
                let after = text::copy_range(wd.as_slice(), pos + 1, wd.len());
                assert(after@ =~= wd@.skip(pos + 1));
                let secs_text = if after.len() > 0 && after[0] == '+' {
                    let t = text::copy_range(after.as_slice(), 1, after.len());
                    assert(t@ =~= after@.drop_first());
                    t
                } else {
                    after
                };
                let seconds: u32 = if secs_text.len() == 0 {
                    0
                } else {
                    match parse_u32_exec(secs_text.as_slice()) {
                        Some(v) => v,
                        None => return None,
                    }
                };
                Some(
                    single_stage(input,
                        warnings,
                        "interpreted_apostrophe_notation",
                        super::checked_minutes_to_seconds(minutes),
                        Some(seconds),
                    ),
                )
            },
            None => {
                match parse_u32_exec(wd.as_slice()) {
                    Some(seconds) => {
                        let mut w = clone_strings(warnings);
                        push_warning(&mut w, "interpreted_apostrophe_notation");
                        let digits = text::decimal(seconds as u64);
                        let mut periods: Vec<Period> = Vec::new();
                        periods.push(
                            Period { moves: None, base_seconds: seconds, increment_seconds: None },
                        );
                        let r = ParsedTimeControl {
                            raw: text::string_of(input),
                            normalized: Some(text::string_of(digits.as_slice())),
                            periods,
                            mode: Mode::Normal,
                            warnings: w,
                            inferred: true,
                            overflow: false,
                        };
                        assert(r@.periods =~= seq![
                            Period { moves: None, base_seconds: seconds, increment_seconds: None },
                        ]);
                        Some(r)
                    },
                    None => None,
                }
            },
        }
    } else if n >= 1 && input[n - 1] == '\'' {
        let head = text::copy_range(input, 0, n - 1);
        assert(head@ =~= input@.drop_last());
        match parse_u32_exec(head.as_slice()) {
            Some(m) => Some(
                single_stage(input,
                    warnings,
                    "interpreted_apostrophe_notation",
                    super::checked_minutes_to_seconds(m),
                    None,
                ),
            ),
            None => None,
        }
    } else {
        None
    }
}

/// Runs of `+` collapsed to a single `+`.
pub open spec fn collapse_plus(s: Seq<char>) -> Seq<char>
    decreases s.len(),
{
    if s.len() == 0 {
        s
    } else if s.len() >= 2 && s.last() == '+' && s[s.len() - 2] == '+' {
        collapse_plus(s.drop_last())
    } else {
        collapse_plus(s.drop_last()).push(s.last())
    }
}

pub fn collapse_plus_exec(s: &[char]) -> (r: Vec<char>)
    ensures
        r@ == collapse_plus(s@),
{
    let mut out: Vec<char> = Vec::new();
    let mut i: usize = 0;
    while i < s.len()
        invariant
            i <= s@.len(),
            out@ == collapse_plus(s@.take(i as int)),
        decreases s.len() - i,
    {
        assert(s@.take(i + 1).drop_last() =~= s@.take(i as int));
        if !(i >= 1 && s[i] == '+' && s[i - 1] == '+') {
            out.push(s[i]);
        }
        i += 1;
    }
    assert(s@.take(s@.len() as int) =~= s@);
    out
}

/// The text after a `g` or `game` prefix, tidied for the numeric pattern;
/// `None` without the prefix.
pub open spec fn g_prefix_candidate(input: Seq<char>) -> Option<Seq<char>> {
    let lower = text::lowercase(input);
    let rest = if "game"@.len() <= lower.len() && lower.take("game"@.len() as int) == "game"@ {
        Some(lower.skip("game"@.len() as int))
    } else if lower.len() > 0 && lower[0] == 'g' {
        Some(lower.drop_first())
    } else {
        None
    };
    match rest {
        Some(r0) => {
            let r1 = text::trim_start(r0);
            let r2 = if r1.len() > 0 && (r1[0] == '/' || r1[0] == ':') {
                r1.drop_first()
            } else {
                r1
            };
            let c1 = text::replace(text::replace(text::trim(r2), ";+"@, "+"@), ";"@, "+"@);
            let c2 = text::replace(
                text::replace(
                    text::replace(
                        text::replace(text::replace(c1, " + "@, "+"@), "+ "@, "+"@),
                        " +"@,
                        "+"@,
                    ),
                    "\t+"@,
                    "+"@,
                ),
                "+\t"@,
                "+"@,
            );
            Some(text::trim(collapse_plus(c2)))
        },
        None => None,
    }
}

/// `G60`, `Game/90+30`, `G:15;5 sec per move`: minutes after a `g` prefix.
pub open spec fn g_prefix_shorthand(input: Seq<char>, w: Seq<Seq<char>>) -> Option<
    TimeControlModel,
> {
    match g_prefix_candidate(input) {
        Some(cand) => match pattern::regex_captures(G_PREFIX_NUMERIC_RE@, cand) {
            Some(c) => g_prefix_groups(c, input, w),
            None => None,
        },
        None => None,
    }
}

/// From the groups of a match: minutes in group 1 and an optional increment
/// in group 2.
pub open spec fn g_prefix_groups(c: Seq<Option<Seq<char>>>, input: Seq<char>, w: Seq<Seq<char>>) -> Option<
    TimeControlModel,
> {
    match group_u32(c, 1) {
        Some(b) => Some(
            single_model(
                input,
                w,
                "interpreted_g_prefix_as_minutes"@,
                minutes_to_seconds(b),
                group_u32(c, 2),
            ),
        ),
        None => None,
    }
}

fn g_prefix_candidate_exec(input: &[char]) -> (r: Option<Vec<char>>)
    ensures
        pattern::opt_chars_view(r) == g_prefix_candidate(input@),
{
    let lower = text::to_lowercase(input);
    let rest = if text::starts_with_str(lower.as_slice(), "game") {
        let g = text::chars_of("game");
        text::copy_range(lower.as_slice(), g.len(), lower.len())
    } else if lower.len() > 0 && lower[0] == 'g' {
        text::copy_range(lower.as_slice(), 1, lower.len())
    } else {
        return None;
    };
    proof {
        if "game"@.len() <= lower@.len() && lower@.take("game"@.len() as int) == "game"@ {
            assert(rest@ =~= lower@.skip("game"@.len() as int));
        } else {
            assert(rest@ =~= lower@.drop_first());
        }
    }
    let a = text::trim_start_index(rest.as_slice());
    let r1 = text::copy_range(rest.as_slice(), a, rest.len());
    let r2 = if r1.len() > 0 && (r1[0] == '/' || r1[0] == ':') {
        text::copy_range(r1.as_slice(), 1, r1.len())
    } else {
        r1
    };
    proof {
        let t1 = text::trim_start(rest@);
        if t1.len() > 0 && (t1[0] == '/' || t1[0] == ':') {
            assert(r2@ =~= t1.drop_first());
        }
    }
    let t = text::trim_chars(r2.as_slice());
    let c = text::replace_str(t.as_slice(), ";+", "+");
    let c = text::replace_str(c.as_slice(), ";", "+");
    let c = text::replace_str(c.as_slice(), " + ", "+");
    let c = text::replace_str(c.as_slice(), "+ ", "+");
    let c = text::replace_str(c.as_slice(), " +", "+");
    let c = text::replace_str(c.as_slice(), "\t+", "+");
    let c = text::replace_str(c.as_slice(), "+\t", "+");
    let c = collapse_plus_exec(c.as_slice());
    Some(text::trim_chars(c.as_slice()))
}

pub fn try_g_prefix_shorthand(input: &[char], warnings: &Vec<String>) -> (r: Option<
    ParsedTimeControl,
>)
    ensures
        opt_model(r) == g_prefix_shorthand(input@, string_views(warnings@)),
{
    let cand = match g_prefix_candidate_exec(input) {
        Some(c) => c,
        None => return None,
    };
    match pattern::captures(G_PREFIX_NUMERIC_RE, cand.as_slice()) {
        Some(c) => g_prefix_from_groups(&c, input, warnings),
        None => None,
    }
}

/// From the groups of a match: minutes in group 1 and an optional increment
/// in group 2.
pub fn g_prefix_from_groups(caps: &Vec<Option<Vec<char>>>, input: &[char], warnings: &Vec<String>) -> (r:
    Option<ParsedTimeControl>)
    ensures
        opt_model(r) == g_prefix_groups(groups_view(caps@), input@, string_views(warnings@)),
{
    let b = match group_u32_exec(caps, 1) {
        Some(v) => v,
        None => return None,
    };
    let inc = group_u32_exec(caps, 2);
    Some(
        single_stage(
            input,
            warnings,
            "interpreted_g_prefix_as_minutes",
            super::checked_minutes_to_seconds(b),
            inc,
        ),
    )
}

/// `B+I` with a base under a minute's worth of seconds read as minutes
/// (`3+2`), and the classical `75+30` / `90+30`.
pub open spec fn plus_minutes_shorthand(input: Seq<char>, w: Seq<Seq<char>>) -> Option<
    TimeControlModel,
> {
    let parts = text::split_char(input, '+');
    if input.contains('+') && parts.len() == 2 {
        match (text::parse_u32(parts[0]), text::parse_u32(parts[1])) {
            (Some(b), Some(i)) => if b < 60 && i <= 60 {
                Some(
                    single_model(input,
                        w,
                        "interpreted_small_base_as_minutes"@,
                        minutes_to_seconds(b),
                        Some(i),
                    ),
                )
            } else if (b == 75 || b == 90) && i == 30 {
                Some(
                    single_model(input,
                        w,
                        "interpreted_classical_75_90_as_minutes"@,
                        minutes_to_seconds(b),
                        Some(i),
                    ),
                )
            } else {
                None
            },
            _ => None,
        }
    } else {
        None
    }
}

fn try_plus_minutes_shorthand(input: &[char], warnings: &Vec<String>) -> (r: Option<
    ParsedTimeControl,
>)
    ensures
        opt_model(r) == plus_minutes_shorthand(input@, string_views(warnings@)),
{
    if !text::contains_char(input, '+') {
        return None;
    }
    let parts = text::split_char_exec(input, '+');
    if parts.len() != 2 {
        return None;
    }
    assert(parts[0]@ == text::views(parts@)[0]);
    assert(parts[1]@ == text::views(parts@)[1]);
    let b = match parse_u32_exec(parts[0].as_slice()) {
        Some(v) => v,
        None => return None,
    };
    let i = match parse_u32_exec(parts[1].as_slice()) {
        Some(v) => v,
        None => return None,
    };
    if b < 60 && i <= 60 {
        Some(
            single_stage(input,
                warnings,
                "interpreted_small_base_as_minutes",
                super::checked_minutes_to_seconds(b),
                Some(i),
            ),
        )
    } else if (b == 75 || b == 90) && i == 30 {
        Some(
            single_stage(input,
                warnings,
                "interpreted_classical_75_90_as_minutes",
                super::checked_minutes_to_seconds(b),
                Some(i),
            ),
        )
    } else {
        None
    }
}

/// A bare number under 60, with no `+`, `/` or `:`, read as minutes.
pub open spec fn bare_minutes(input: Seq<char>, w: Seq<Seq<char>>) -> Option<TimeControlModel> {
    if !input.contains('+') && !input.contains('/') && !input.contains(':') {
        match text::parse_u32(input) {
            Some(n) => if n < 60 {
                Some(
                    single_model(input,
                        w,
                        "interpreted_small_bare_number_as_minutes"@,
                        minutes_to_seconds(n),
                        None,
                    ),
                )
            } else {
                None
            },
            None => None,
        }
    } else {
        None
    }
}

fn try_bare_minutes(input: &[char], warnings: &Vec<String>) -> (r: Option<ParsedTimeControl>)
    ensures
        opt_model(r) == bare_minutes(input@, string_views(warnings@)),
{
    if text::contains_char(input, '+') || text::contains_char(input, '/') || text::contains_char(
        input,
        ':',
    ) {
        return None;
    }
    match parse_u32_exec(input) {
        Some(n) => if n < 60 {
            Some(
                single_stage(input,
                    warnings,
                    "interpreted_small_bare_number_as_minutes",
                    super::checked_minutes_to_seconds(n),
                    None,
                ),
            )
        } else {
            None
        },
        None => None,
    }
}

/// The inference rules, tried in order; the first that applies decides.
pub open spec fn inference(input: Seq<char>, w: Seq<Seq<char>>) -> Option<TimeControlModel> {
    first_some(
        g_prefix_shorthand(input, w),
        first_some(
            apostrophe_per_move_shorthand(input, w),
            first_some(
                compact_fide_apostrophe_shorthand(input, w),
                first_some(
                    fide_additional_wording(input, w),
                    first_some(
                        compact_fide_triple_plus(input, w),
                        first_some(
                            two_stage_slash_shorthand(input, w),
                            first_some(
                                compact_minute_second_increment(input, w),
                                first_some(
                                    clock_style_increment(input, w),
                                    first_some(
                                        apostrophe_notation(input, w),
                                        first_some(
                                            plus_minutes_shorthand(input, w),
                                            bare_minutes(input, w),
                                        ),
                                    ),
                                ),
                            ),
                        ),
                    ),
                ),
            ),
        ),
    )
}

pub fn try_inference(input: &[char], warnings: &Vec<String>) -> (r: Option<ParsedTimeControl>)
    ensures
        opt_model(r) == inference(input@, string_views(warnings@)),
{
    let r = try_g_prefix_shorthand(input, warnings);
    if r.is_some() {
        return r;
    }
    let r = try_apostrophe_per_move_shorthand(input, warnings);
    if r.is_some() {
        return r;
    }
    let r = try_compact_fide_apostrophe_shorthand(input, warnings);
    if r.is_some() {
        return r;
    }
    let r = try_fide_additional_wording(input, warnings);
    if r.is_some() {
        return r;
    }
    let r = try_compact_fide_triple_plus(input, warnings);
    if r.is_some() {
        return r;
    }
    let r = try_two_stage_slash_shorthand(input, warnings);
    if r.is_some() {
        return r;
    }
    let r = try_compact_minute_second_increment(input, warnings);
    if r.is_some() {
        return r;
    }
    let r = try_clock_style_increment(input, warnings);
    if r.is_some() {
        return r;
    }
    let r = try_apostrophe_notation(input, warnings);
    if r.is_some() {
        return r;
    }
    let r = try_plus_minutes_shorthand(input, warnings);
    if r.is_some() {
        return r;
    }
    try_bare_minutes(input, warnings)
}

/// `str::parse::<u32>` of an optional text.
pub open spec fn opt_parse_u32(o: Option<Seq<char>>) -> Option<u32> {
    match o {
        Some(t) => text::parse_u32(t),
        None => None,
    }
}

/// Group 1 of the last match that has one, read as a `u32`.
pub open spec fn last_group1_u32(all: Seq<Seq<Option<Seq<char>>>>) -> Option<u32>
    decreases all.len(),
{
    if all.len() == 0 {
        None
    } else {
        match group(all.last(), 1) {
            Some(g) => text::parse_u32(g),
            None => last_group1_u32(all.drop_last()),
        }
    }
}

fn last_group1_u32_exec(all: &Vec<Vec<Option<Vec<char>>>>) -> (r: Option<u32>)
    ensures
        r == last_group1_u32(pattern::all_groups_view(all@)),
{
    let ghost v = pattern::all_groups_view(all@);
    let mut result: Option<u32> = None;
    let mut i: usize = 0;
    while i < all.len()
        invariant
            i <= all@.len(),
            v == pattern::all_groups_view(all@),
            result == last_group1_u32(v.take(i as int)),
        decreases all.len() - i,
    {
        assert(v.take(i + 1).drop_last() =~= v.take(i as int));
        assert(v.take(i + 1).last() == groups_view(all@[i as int]@));
        match pattern::group_exec(&all[i], 1) {
            Some(g) => {
                result = parse_u32_exec(g.as_slice());
            },
            None => {},
        }
        i += 1;
    }
    assert(v.take(all@.len() as int) =~= v);
    result
}

/// `90 minutes for 40 moves, then 30 minutes, 30 seconds per move`.
pub open spec fn free_text_fide(input: Seq<char>, lower: Seq<char>, w: Seq<Seq<char>>) -> Option<TimeControlModel> {
    free_text_fide_groups(
        pattern::regex_captures(FREETEXT_FIDE_STAGE_RE@, lower),
        pattern::regex_captures(FREETEXT_FIDE_REST_RE@, lower),
        pattern::regex_captures(FREETEXT_INC_RE@, lower),
        input,
        w,
    )
}

/// From the matches of the three FIDE classical wordings: base minutes and
/// moves from the first stage (moves in group 2, else group 3), the rest in
/// minutes, and the increment in seconds.
pub open spec fn free_text_fide_groups(
    stage: Option<Seq<Option<Seq<char>>>>,
    rest: Option<Seq<Option<Seq<char>>>>,
    inc: Option<Seq<Option<Seq<char>>>>,
    input: Seq<char>,
    w: Seq<Seq<char>>,
) -> Option<TimeControlModel> {
    match (stage, rest, inc) {
        (Some(sc), Some(rc), Some(ic)) => {
            let moves_text = if group(sc, 2) is Some {
                group(sc, 2)
            } else {
                group(sc, 3)
            };
            match (group_u32(sc, 1), opt_parse_u32(moves_text), group_u32(rc, 1), group_u32(ic, 1)) {
                (Some(base), Some(moves), Some(r), Some(i)) => Some(
                    two_stage_model(
                        input,
                        w,
                        "matched_free_text_template_fide_classical"@,
                        Some(moves),
                        minutes_to_seconds(base),
                        Some(i),
                        minutes_to_seconds(r),
                        Some(i),
                    ),
                ),
                _ => None,
            }
        },
        _ => None,
    }
}

fn try_free_text_fide(input: &[char], lower: &[char], warnings: &Vec<String>) -> (r: Option<
    ParsedTimeControl,
>)
    ensures
        opt_model(r) == free_text_fide(input@, lower@, string_views(warnings@)),
{
    let sc = pattern::captures(FREETEXT_FIDE_STAGE_RE, lower);
    let rc = pattern::captures(FREETEXT_FIDE_REST_RE, lower);
    let ic = pattern::captures(FREETEXT_INC_RE, lower);
    free_text_fide_from_groups(&sc, &rc, &ic, input, warnings)
}

/// From the matches of the three FIDE classical wordings: base minutes and
/// moves from the first stage (moves in group 2, else group 3), the rest in
/// minutes, and the increment in seconds.
pub fn free_text_fide_from_groups(
    stage: &Option<Vec<Option<Vec<char>>>>,
    rest: &Option<Vec<Option<Vec<char>>>>,
    inc: &Option<Vec<Option<Vec<char>>>>,
    input: &[char],
    warnings: &Vec<String>,
) -> (r: Option<ParsedTimeControl>)
    ensures
        opt_model(r) == free_text_fide_groups(
            opt_groups_view(*stage),
            opt_groups_view(*rest),
            opt_groups_view(*inc),
            input@,
            string_views(warnings@),
        ),
{
    let (sc, rc, ic) = match (stage, rest, inc) {
        (Some(sc), Some(rc), Some(ic)) => (sc, rc, ic),
        _ => return None,
    };
    let base = match group_u32_exec(sc, 1) {
        Some(v) => v,
        None => return None,
    };
    let moves_text = match pattern::group_exec(sc, 2) {
        Some(t) => Some(t),
        None => pattern::group_exec(sc, 3),
    };
    let moves = match moves_text {
        Some(t) => match parse_u32_exec(t.as_slice()) {
            Some(v) => v,
            None => return None,
        },
        None => return None,
    };
    let r = match group_u32_exec(rc, 1) {
        Some(v) => v,
        None => return None,
    };
    let i = match group_u32_exec(ic, 1) {
        Some(v) => v,
        None => return None,
    };
    Some(
        two_stage(
            input,
            warnings,
            "matched_free_text_template_fide_classical",
            Some(moves),
            super::checked_minutes_to_seconds(base),
            Some(i),
            super::checked_minutes_to_seconds(r),
            Some(i),
        ),
    )
}

/// Whether the text mentions a minute or second unit.
pub open spec fn mentions_units(lower: Seq<char>) -> bool {
    text::contains_seq(lower, "minute"@) || text::contains_seq(lower, "minut"@)
        || text::contains_seq(lower, "min"@) || text::contains_seq(lower, "sek"@)
        || text::contains_seq(lower, "sec"@)
}

/// The increment (from a per-move wording) and the text left for the
/// minute and second wordings.
pub open spec fn free_text_increment(lower: Seq<char>) -> (Option<u32>, Seq<char>) {
    match pattern::regex_captures(FREETEXT_INC_RE@, lower) {
        Some(c) => match group(c, 1) {
            Some(m) => (
                text::parse_u32(m),
                pattern::regex_replace_all(FREETEXT_INC_RE@, lower, " "@),
            ),
            None => (None, lower),
        },
        None => (None, lower),
    }
}

/// `15 minutes 10 seconds per move`: the last minute wording, plus the last
/// second wording, plus a per-move increment.
pub open spec fn free_text_minutes(input: Seq<char>, lower: Seq<char>, w: Seq<Seq<char>>) -> Option<TimeControlModel> {
    if mentions_units(lower) {
        let (inc, template) = free_text_increment(lower);
        free_text_minutes_groups(
            inc,
            pattern::regex_captures_all(FREETEXT_MINUTE_RE@, template),
            pattern::regex_captures_all(FREETEXT_SECOND_RE@, template),
            input,
            w,
        )
    } else {
        None
    }
}

/// From the increment and the matches of the minute and second wordings:
/// the last minute wording, plus the last second wording, as the base.
pub open spec fn free_text_minutes_groups(
    inc: Option<u32>,
    minute_matches: Seq<Seq<Option<Seq<char>>>>,
    second_matches: Seq<Seq<Option<Seq<char>>>>,
    input: Seq<char>,
    w: Seq<Seq<char>>,
) -> Option<TimeControlModel> {
    match last_group1_u32(minute_matches) {
        Some(mins) => {
            let base = match (minutes_to_seconds(mins), last_group1_u32(second_matches)) {
                (Some(ms), Some(sec)) => super::compose_base_increment(ms, sec),
                (Some(ms), None) => Some(ms),
                (None, _) => None,
            };
            Some(single_model(input, w, "matched_free_text_template"@, base, inc))
        },
        None => None,
    }
}

fn try_free_text_minutes(input: &[char], lower: &[char], warnings: &Vec<String>) -> (r: Option<
    ParsedTimeControl,
>)
    ensures
        opt_model(r) == free_text_minutes(input@, lower@, string_views(warnings@)),
{
    if !(text::contains_str(lower, "minute") || text::contains_str(lower, "minut")
        || text::contains_str(lower, "min") || text::contains_str(lower, "sek")
        || text::contains_str(lower, "sec")) {
        return None;
    }
    let mut inc: Option<u32> = None;
    let mut template = text::copy_range(lower, 0, lower.len());
    assert(template@ =~= lower@);
    match pattern::captures(FREETEXT_INC_RE, lower) {
        Some(c) => match pattern::group_exec(&c, 1) {
            Some(m) => {
                inc = parse_u32_exec(m.as_slice());
                template = pattern::replace_all(FREETEXT_INC_RE, lower, " ");
            },
            None => {},
        },
        None => {},
    }
    assert(free_text_increment(lower@) == (inc, template@));
    let minute_matches = pattern::captures_all(FREETEXT_MINUTE_RE, template.as_slice());
    let second_matches = pattern::captures_all(FREETEXT_SECOND_RE, template.as_slice());
    free_text_minutes_from_groups(inc, &minute_matches, &second_matches, input, warnings)
}

/// From the increment and the matches of the minute and second wordings:
/// the last minute wording, plus the last second wording, as the base.
pub fn free_text_minutes_from_groups(
    inc: Option<u32>,
    minute_matches: &Vec<Vec<Option<Vec<char>>>>,
    second_matches: &Vec<Vec<Option<Vec<char>>>>,
    input: &[char],
    warnings: &Vec<String>,
) -> (r: Option<ParsedTimeControl>)
    ensures
        opt_model(r) == free_text_minutes_groups(
            inc,
            pattern::all_groups_view(minute_matches@),
            pattern::all_groups_view(second_matches@),
            input@,
            string_views(warnings@),
        ),
{
    let minutes = last_group1_u32_exec(minute_matches);
    let seconds = last_group1_u32_exec(second_matches);
    match minutes {
        Some(mins) => {
            let base = match super::checked_minutes_to_seconds(mins) {
                Some(ms) => match seconds {
                    Some(sec) => super::checked_compose_base_increment(ms, sec),
                    None => Some(ms),
                },
                None => None,
            };
            Some(single_stage(input, warnings, "matched_free_text_template", base, inc))
        },
        None => None,
    }
}

/// Free-text templates on the lowercased input: the FIDE classical wording
/// first, then minute and second wordings.
pub open spec fn free_text_templates(input: Seq<char>, w: Seq<Seq<char>>) -> Option<
    TimeControlModel,
> {
    let lower = text::lowercase(input);
    first_some(free_text_fide(input, lower, w), free_text_minutes(input, lower, w))
}

pub fn try_free_text_templates(input: &[char], warnings: &Vec<String>) -> (r: Option<
    ParsedTimeControl,
>)
    ensures
        opt_model(r) == free_text_templates(input@, string_views(warnings@)),
{
    let lower = text::to_lowercase(input);
    let r = try_free_text_fide(input, lower.as_slice(), warnings);
    if r.is_some() {
        return r;
    }
    try_free_text_minutes(input, lower.as_slice(), warnings)
}

/// A character that rules a word out as a trailing qualifier.
pub open spec fn is_notation_char(c: char) -> bool {
    c == '+' || c == '/' || c == ':' || c == '*' || c == '-' || c == '?' || c == '\'' || c == '"'
        || c == '&' || c == '|'
}

/// `90+30 classical` without its trailing word: the text before a final
/// word of letters, when that word has no digit and no notation character.
pub open spec fn trailing_qualifier_core(input: Seq<char>) -> Option<Seq<char>> {
    match pattern::regex_captures(TRAILING_QUALIFIER_SUFFIX_RE@, input) {
        Some(c) => trailing_qualifier_groups(c),
        None => None,
    }
}

/// From the groups of a match: the core (group 1), trimmed, when the
/// suffix (group 2), trimmed, is a plain word without digits or notation.
pub open spec fn trailing_qualifier_groups(c: Seq<Option<Seq<char>>>) -> Option<Seq<char>> {
    match (group(c, 1), group(c, 2)) {
        (Some(a), Some(b)) => {
            let core = text::trim(a);
            let suffix = text::trim(b);
            if core.len() == 0 || suffix.len() == 0 {
                None
            } else if exists|i: int| 0 <= i < suffix.len() && text::is_digit(#[trigger] suffix[i]) {
                None
            } else if exists|i: int| 0 <= i < suffix.len() && is_notation_char(#[trigger] suffix[i]) {
                None
            } else {
                Some(core)
            }
        },
        _ => None,
    }
}

fn has_digit(s: &[char]) -> (r: bool)
    ensures
        r == exists|i: int| 0 <= i < s@.len() && text::is_digit(#[trigger] s@[i]),
{
    let mut i: usize = 0;
    while i < s.len()
        invariant
            i <= s@.len(),
            forall|j: int| 0 <= j < i ==> !text::is_digit(#[trigger] s@[j]),
        decreases s.len() - i,
    {
        if text::is_digit_exec(s[i]) {
            return true;
        }
        i += 1;
    }
    false
}

fn has_notation_char(s: &[char]) -> (r: bool)
    ensures
        r == exists|i: int| 0 <= i < s@.len() && is_notation_char(#[trigger] s@[i]),
{
    let mut i: usize = 0;
    while i < s.len()
        invariant
            i <= s@.len(),
            forall|j: int| 0 <= j < i ==> !is_notation_char(#[trigger] s@[j]),
        decreases s.len() - i,
    {
        let c = s[i];
        if c == '+' || c == '/' || c == ':' || c == '*' || c == '-' || c == '?' || c == '\''
            || c == '"' || c == '&' || c == '|' {
            return true;
        }
        i += 1;
    }
    false
}

pub fn strip_trailing_qualifier_suffix(input: &[char]) -> (r: Option<Vec<char>>)
    ensures
        pattern::opt_chars_view(r) == trailing_qualifier_core(input@),
{
    match pattern::captures(TRAILING_QUALIFIER_SUFFIX_RE, input) {
        Some(c) => trailing_qualifier_from_groups(&c),
        None => None,
    }
}

/// From the groups of a match: the core (group 1), trimmed, when the
/// suffix (group 2), trimmed, is a plain word without digits or notation.
pub fn trailing_qualifier_from_groups(c: &Vec<Option<Vec<char>>>) -> (r: Option<Vec<char>>)
    ensures
        pattern::opt_chars_view(r) == trailing_qualifier_groups(groups_view(c@)),
{
    let a = match pattern::group_exec(c, 1) {
        Some(a) => a,
        None => return None,
    };
    let b = match pattern::group_exec(c, 2) {
        Some(b) => b,
        None => return None,
    };
    let core = text::trim_chars(a.as_slice());
    let suffix = text::trim_chars(b.as_slice());
    if core.len() == 0 || suffix.len() == 0 {
        return None;
    }
    if has_digit(suffix.as_slice()) {
        return None;
    }
    if has_notation_char(suffix.as_slice()) {
        return None;
    }
    Some(core)
}

pub open spec fn is_quote(c: char) -> bool {
    c == '\'' || c == '"'
}

/// Quote characters wrapping the whole value removed, repeatedly, trimming
/// inside; the flag says whether any were removed.
pub open spec fn strip_quote_loop(s: Seq<char>) -> (Seq<char>, bool)
    decreases s.len(),
{
    if s.len() >= 2 && is_quote(s[0]) && is_quote(s.last()) {
        proof {
            text::lemma_trim_len(s.subrange(1, s.len() - 1));
        }
        (strip_quote_loop(text::trim(s.subrange(1, s.len() - 1))).0, true)
    } else {
        (s, false)
    }
}

pub open spec fn strip_outer_quotes(s: Seq<char>) -> (Seq<char>, bool) {
    strip_quote_loop(text::trim(s))
}

fn strip_outer_quote_wrappers(input: &[char]) -> (r: (Vec<char>, bool))
    ensures
        (r.0@, r.1) == strip_outer_quotes(input@),
{
    let mut s = text::trim_chars(input);
    let mut stripped = false;
    while s.len() >= 2 && (s[0] == '\'' || s[0] == '"') && (s[s.len() - 1] == '\''
        || s[s.len() - 1] == '"')
        invariant
            strip_outer_quotes(input@) == (if stripped {
                (strip_quote_loop(s@).0, true)
            } else {
                strip_quote_loop(s@)
            }),
        decreases s.len(),
    {
        let inner = text::copy_range(s.as_slice(), 1, s.len() - 1);
        assert(inner@ =~= s@.subrange(1, s@.len() - 1));
        proof {
            text::lemma_trim_len(inner@);
        }
        s = text::trim_chars(inner.as_slice());
        stripped = true;
    }
    (s, stripped)
}

/// An apostrophe at `i` that starts a run not preceded by a digit.
pub open spec fn residue_at(s: Seq<char>, i: int) -> bool {
    s[i] == '\'' && (i == 0 || !(s[i - 1] == '\'' || text::is_digit(s[i - 1])))
}

/// Quote marks that are not minute/second apostrophes after a number: a
/// double quote, or an apostrophe run at the start or after a non-digit.
pub open spec fn quote_residue(s: Seq<char>) -> bool {
    s.contains('"') || exists|i: int| 0 <= i < s.len() && #[trigger] residue_at(s, i)
}

fn has_ambiguous_quote_residue(s: &[char]) -> (r: bool)
    ensures
        r == quote_residue(s@),
{
    if text::contains_char(s, '"') {
        return true;
    }
    let mut i: usize = 0;
    while i < s.len()
        invariant
            i <= s@.len(),
            forall|j: int| 0 <= j < i ==> !#[trigger] residue_at(s@, j),
        decreases s.len() - i,
    {
        if s[i] == '\'' && (i == 0 || !(s[i - 1] == '\'' || text::is_digit_exec(s[i - 1]))) {
            assert(residue_at(s@, i as int));
            return true;
        }
        i += 1;
    }
    false
}

/// Spaces around one operator removed (`" op "`, `"op "`, `" op"`).
pub open spec fn tighten(s: Seq<char>, op: char) -> Seq<char> {
    text::replace(
        text::replace(text::replace(s, seq![' ', op, ' '], seq![op]), seq![op, ' '], seq![op]),
        seq![' ', op],
        seq![op],
    )
}

fn tighten_exec(s: &[char], op: char) -> (r: Vec<char>)
    ensures
        r@ == tighten(s@, op),
{
    let one = vec![op];
    let both = vec![' ', op, ' '];
    let after = vec![op, ' '];
    let before = vec![' ', op];
    assert(one@ =~= seq![op]);
    assert(both@ =~= seq![' ', op, ' ']);
    assert(after@ =~= seq![op, ' ']);
    assert(before@ =~= seq![' ', op]);
    let t = text::replace_exec(s, both.as_slice(), one.as_slice());
    let t = text::replace_exec(t.as_slice(), after.as_slice(), one.as_slice());
    text::replace_exec(t.as_slice(), before.as_slice(), one.as_slice())
}

pub open spec fn tighten_operators(s: Seq<char>) -> Seq<char> {
    tighten(tighten(tighten(tighten(s, '+'), '-'), '/'), ':')
}

/// `|` and `_` read as `+`.
pub open spec fn map_separators(s: Seq<char>) -> Seq<char> {
    s.map_values(|c: char| if c == '|' || c == '_' { '+' } else { c })
}

fn map_separators_exec(s: &[char]) -> (r: Vec<char>)
    ensures
        r@ == map_separators(s@),
{
    let mut out: Vec<char> = Vec::new();
    let mut i: usize = 0;
    while i < s.len()
        invariant
            i <= s@.len(),
            out@ == map_separators(s@.take(i as int)),
        decreases s.len() - i,
    {
        let c = s[i];
        if c == '|' || c == '_' {
            out.push('+');
        } else {
            out.push(c);
        }
        assert(map_separators(s@.take(i + 1)) =~= map_separators(s@.take(i as int)).push(
            if c == '|' || c == '_' { '+' } else { c },
        ));
        i += 1;
    }
    assert(s@.take(s@.len() as int) =~= s@);
    out
}

/// Whether a value is strict notation: `?`, `-`, `*secs`, stages joined by
/// `:`, or one stage.
pub open spec fn candidate_is_strict(c: Seq<char>) -> bool {
    c == "?"@ || c == "-"@ || (c.len() > 0 && c[0] == '*' && text::parse_u32(c.drop_first()) is Some)
        || (c.contains(':') && super::strict::parse_stages(text::split_char(c, ':')) is Some)
        || super::strict::parse_stage(c) is Some
}

fn candidate_is_strict_exec(c: &[char]) -> (r: bool)
    ensures
        r == candidate_is_strict(c@),
{
    if text::chars_eq_str(c, "?") || text::chars_eq_str(c, "-") {
        return true;
    }
    if c.len() > 0 && c[0] == '*' {
        let rest = text::copy_range(c, 1, c.len());
        assert(rest@ =~= c@.drop_first());
        if parse_u32_exec(rest.as_slice()).is_some() {
            return true;
        }
    }
    if text::contains_char(c, ':') {
        let parts = text::split_char_exec(c, ':');
        if super::strict::parse_stages_exec(&parts).is_some() {
            return true;
        }
    }
    super::strict::parse_stage_exec(c).is_some()
}

/// A value ending in exactly one apostrophe.
pub open spec fn ends_with_single_apostrophe(s: Seq<char>) -> bool {
    s.len() >= 1 && s.last() == '\'' && !(s.len() >= 2 && s[s.len() - 2] == '\'')
}

/// The tidied value, the warnings recorded while tidying, and whether quote
/// residue makes the value ambiguous.
pub struct Preprocessed {
    pub normalized: Seq<char>,
    pub warnings: Seq<Seq<char>>,
    pub residue: bool,
}

/// The operator-spacing and separator steps, with their warnings.
pub open spec fn tidy_operators(s: Seq<char>, w: Seq<Seq<char>>) -> (Seq<char>, Seq<Seq<char>>) {
    let s2 = tighten_operators(s);
    let w2 = if s2 != s {
        w.push("normalized_operator_whitespace"@)
    } else {
        w
    };
    let s3 = map_separators(s2);
    if s3 != s2 {
        let s4 = tighten(s3, '+');
        let w3 = w2.push("mapped_separator"@);
        (
            s4,
            if s4 != s3 {
                w3.push("normalized_operator_whitespace"@)
            } else {
                w3
            },
        )
    } else {
        (s2, w2)
    }
}

/// Tidying before parsing: trim, strip wrapping quotes, note quote residue,
/// remove spaces around operators, read `|` and `_` as `+`, and drop a
/// single trailing apostrophe after strict notation.
pub open spec fn preprocess(input: Seq<char>) -> Preprocessed {
    let t = text::trim(input);
    let w1: Seq<Seq<char>> = if t != input {
        seq!["trimmed"@]
    } else {
        Seq::empty()
    };
    let (s1, stripped) = strip_outer_quotes(t);
    let w2 = if stripped {
        w1.push("stripped_quotes"@)
    } else {
        w1
    };
    let residue = quote_residue(s1);
    let w3 = if residue {
        w2.push("ambiguous_quote_residue"@)
    } else {
        w2
    };
    let (s4, w5) = tidy_operators(s1, w3);
    if ends_with_single_apostrophe(s4) && candidate_is_strict(s4.drop_last()) {
        Preprocessed {
            normalized: s4.drop_last(),
            warnings: w5.push("stripped_trailing_apostrophe"@),
            residue,
        }
    } else {
        Preprocessed { normalized: s4, warnings: w5, residue }
    }
}

pub struct PreprocessResult {
    pub normalized: Vec<char>,
    pub warnings: Vec<String>,
    pub has_ambiguous_quote_residue: bool,
}

fn tidy_operators_exec(s: &[char], w: &mut Vec<String>) -> (r: Vec<char>)
    ensures
        (r@, string_views(final(w)@)) == tidy_operators(s@, string_views(old(w)@)),
{
    let t = tighten_exec(s, '+');
    let t = tighten_exec(t.as_slice(), '-');
    let t = tighten_exec(t.as_slice(), '/');
    let s2 = tighten_exec(t.as_slice(), ':');
    if !text::chars_eq(s2.as_slice(), s) {
        push_warning(w, "normalized_operator_whitespace");
    }
    let s3 = map_separators_exec(s2.as_slice());
    if !text::chars_eq(s3.as_slice(), s2.as_slice()) {
        let s4 = tighten_exec(s3.as_slice(), '+');
        push_warning(w, "mapped_separator");
        if !text::chars_eq(s4.as_slice(), s3.as_slice()) {
            push_warning(w, "normalized_operator_whitespace");
        }
        s4
    } else {
        s2
    }
}

pub fn preprocess_exec(input: &[char]) -> (r: PreprocessResult)
    ensures
        r.normalized@ == preprocess(input@).normalized,
        string_views(r.warnings@) == preprocess(input@).warnings,
        r.has_ambiguous_quote_residue == preprocess(input@).residue,
{
    let mut warnings: Vec<String> = Vec::new();
    assert(string_views(warnings@) =~= Seq::<Seq<char>>::empty());
    let t = text::trim_chars(input);
    if !text::chars_eq(t.as_slice(), input) {
        push_warning(&mut warnings, "trimmed");
        assert(string_views(warnings@) =~= seq!["trimmed"@]);
    }
    let (s1, stripped) = strip_outer_quote_wrappers(t.as_slice());
    if stripped {
        push_warning(&mut warnings, "stripped_quotes");
    }
    let residue = has_ambiguous_quote_residue(s1.as_slice());
    if residue {
        push_warning(&mut warnings, "ambiguous_quote_residue");
    }
    let s4 = tidy_operators_exec(s1.as_slice(), &mut warnings);
    let n = s4.len();
    if n >= 1 && s4[n - 1] == '\'' && !(n >= 2 && s4[n - 2] == '\'') {
        let candidate = text::copy_range(s4.as_slice(), 0, n - 1);
        assert(candidate@ =~= s4@.drop_last());
        if candidate_is_strict_exec(candidate.as_slice()) {
            push_warning(&mut warnings, "stripped_trailing_apostrophe");
            return PreprocessResult {
                normalized: candidate,
                warnings,
                has_ambiguous_quote_residue: residue,
            };
        }
    }
    PreprocessResult { normalized: s4, warnings, has_ambiguous_quote_residue: residue }
}

} // verus!
