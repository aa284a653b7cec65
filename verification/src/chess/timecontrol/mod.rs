//! Parsing, normalization and categorization of PGN `TimeControl` values.
use vstd::prelude::*;
use crate::chess::scalar::{null_row_output, output_of, output_view, VarcharNullBehavior, VarcharOutput};
use crate::text::{self, string_from, string_of};

pub mod inference;
pub mod json;
pub mod strict;

verus! {

/// One stage of a time control: an optional move count, a base time and an
/// optional per-move increment, in seconds.
#[derive(Clone, Copy, Debug, PartialEq, Eq)]
pub struct Period {
    pub moves: Option<u32>,
    pub base_seconds: u32,
    pub increment_seconds: Option<u32>,
}

/// The kind of time control.
#[derive(Clone, Copy, Debug, PartialEq, Eq)]
pub enum Mode {
    Unknown,
    Unlimited,
    Sandclock,
    Normal,
}

/// A parsed time control.
#[derive(Clone, Debug, PartialEq)]
pub struct ParsedTimeControl {
    pub raw: String,
    pub normalized: Option<String>,
    pub periods: Vec<Period>,
    pub mode: Mode,
    pub warnings: Vec<String>,
    pub inferred: bool,
    pub overflow: bool,
}

/// The mathematical value of a `ParsedTimeControl`.
pub struct TimeControlModel {
    pub raw: Seq<char>,
    pub normalized: Option<Seq<char>>,
    pub periods: Seq<Period>,
    pub mode: Mode,
    pub warnings: Seq<Seq<char>>,
    pub inferred: bool,
    pub overflow: bool,
}

/// The views of a list of strings.
pub open spec fn string_views(v: Seq<String>) -> Seq<Seq<char>> {
    Seq::new(v.len(), |i: int| v[i]@)
}

pub open spec fn opt_string_view(o: Option<String>) -> Option<Seq<char>> {
    match o {
        Some(s) => Some(s@),
        None => None,
    }
}

impl View for ParsedTimeControl {
    type V = TimeControlModel;

    open spec fn view(&self) -> TimeControlModel {
        TimeControlModel {
            raw: self.raw@,
            normalized: opt_string_view(self.normalized),
            periods: self.periods@,
            mode: self.mode,
            warnings: string_views(self.warnings@),
            inferred: self.inferred,
            overflow: self.overflow,
        }
    }
}

pub open spec fn opt_model(o: Option<ParsedTimeControl>) -> Option<TimeControlModel> {
    match o {
        Some(p) => Some(p@),
        None => None,
    }
}

/// Why a time control could not be parsed at all.
#[derive(Clone, Debug)]
pub struct TimeControlError {
    pub message: String,
}

/// Pushing a string pushes its view.
pub proof fn lemma_views_push(a: Seq<String>, c: String)
    ensures
        string_views(a.push(c)) == string_views(a).push(c@),
{
    assert(string_views(a.push(c)) =~= string_views(a).push(c@));
}

impl TimeControlError {
    /// The error's text, as it is displayed.
    pub fn to_string(&self) -> (r: String)
        ensures
            r@ == self.message@,
    {
        self.message.clone()
    }
}

/// A copy of a list of strings.
pub fn clone_strings(v: &Vec<String>) -> (r: Vec<String>)
    ensures
        string_views(r@) == string_views(v@),
{
    let mut r: Vec<String> = Vec::new();
    let mut i: usize = 0;
    while i < v.len()
        invariant
            i <= v@.len(),
            string_views(r@) == string_views(v@).take(i as int),
        decreases v.len() - i,
    {
        let ghost old_r = r@;
        let c = v[i].clone();
        assert(c@ == v@[i as int]@);
        r.push(c);
        proof {
            lemma_views_push(old_r, c);
        }
        assert(string_views(r@) =~= string_views(v@).take(i + 1));
        i += 1;
    }
    assert(string_views(v@).take(v@.len() as int) =~= string_views(v@));
    r
}

/// Adds a warning code to a warning list.
pub fn push_warning(w: &mut Vec<String>, code: &str)
    ensures
        string_views(final(w)@) == string_views(old(w)@).push(code@),
{
    w.push(string_from(code));
    assert(string_views(final(w)@) =~= string_views(old(w)@).push(code@));
}

/// Minutes to seconds, `None` on `u32` overflow.
pub open spec fn minutes_to_seconds(minutes: u32) -> Option<u32> {
    if minutes * 60 <= u32::MAX {
        Some((minutes * 60) as u32)
    } else {
        None
    }
}

pub fn checked_minutes_to_seconds(minutes: u32) -> (r: Option<u32>)
    ensures
        r == minutes_to_seconds(minutes),
{
    minutes.checked_mul(60)
}

/// Base plus increment, `None` on `u32` overflow.
pub open spec fn compose_base_increment(base_seconds: u32, inc_seconds: u32) -> Option<u32> {
    if base_seconds + inc_seconds <= u32::MAX {
        Some((base_seconds + inc_seconds) as u32)
    } else {
        None
    }
}

pub fn checked_compose_base_increment(base_seconds: u32, inc_seconds: u32) -> (r: Option<u32>)
    ensures
        r == compose_base_increment(base_seconds, inc_seconds),
{
    base_seconds.checked_add(inc_seconds)
}

/// Hours and minutes to seconds, `None` when any step overflows `u32`.
pub open spec fn hours_minutes_to_seconds(hours: u32, minutes: u32) -> Option<u32> {
    if hours * 3600 <= u32::MAX && minutes * 60 <= u32::MAX && hours * 3600 + minutes * 60
        <= u32::MAX {
        Some((hours * 3600 + minutes * 60) as u32)
    } else {
        None
    }
}

pub fn checked_hours_minutes_to_seconds(hours: u32, minutes: u32) -> (r: Option<u32>)
    ensures
        r == hours_minutes_to_seconds(hours, minutes),
{
    let hours_seconds = match hours.checked_mul(3600) {
        Some(v) => v,
        None => return None,
    };
    let minutes_seconds = match minutes.checked_mul(60) {
        Some(v) => v,
        None => return None,
    };
    hours_seconds.checked_add(minutes_seconds)
}

/// The warning recorded when an inferred value overflows.
pub open spec fn overflow_warning() -> Seq<char> {
    "inference_arithmetic_overflow"@
}

/// The normalized notation of a list of periods: stages joined by `:`.
pub open spec fn format_periods(periods: Seq<Period>) -> Seq<char> {
    text::join(Seq::new(periods.len(), |i: int| strict::format_period(periods[i])), ":"@)
}

/// The result of an inference on `input`, which it keeps as its raw text:
/// `Normal` mode, `inferred` set; on overflow no periods, no normalized text
/// and an overflow warning.
pub open spec fn inferred_model(
    input: Seq<char>,
    warnings: Seq<Seq<char>>,
    periods: Seq<Period>,
    overflow: bool,
) -> TimeControlModel {
    if overflow {
        TimeControlModel {
            raw: input,
            normalized: None,
            periods: Seq::empty(),
            mode: Mode::Normal,
            warnings: warnings.push(overflow_warning()),
            inferred: true,
            overflow: true,
        }
    } else {
        TimeControlModel {
            raw: input,
            normalized: Some(format_periods(periods)),
            periods,
            mode: Mode::Normal,
            warnings,
            inferred: true,
            overflow: false,
        }
    }
}

/// The normalized notation of a list of periods.
pub fn format_periods_exec(periods: &Vec<Period>) -> (r: Vec<char>)
    ensures
        r@ == format_periods(periods@),
{
    let mut parts: Vec<Vec<char>> = Vec::new();
    let mut i: usize = 0;
    while i < periods.len()
        invariant
            i <= periods@.len(),
            text::views(parts@) == Seq::new(periods@.len(), |k: int| strict::format_period(periods@[k])).take(i as int),
        decreases periods.len() - i,
    {
        let ghost before = text::views(parts@);
        parts.push(strict::format_period_exec(&periods[i]));
        assert(text::views(parts@) =~= before.push(strict::format_period(periods@[i as int])));
        assert(text::views(parts@) =~= Seq::new(periods@.len(), |k: int| strict::format_period(periods@[k])).take(i + 1));
        i += 1;
    }
    assert(Seq::new(periods@.len(), |k: int| strict::format_period(periods@[k])).take(periods@.len() as int)
        =~= Seq::new(periods@.len(), |k: int| strict::format_period(periods@[k])));
    let sep = text::chars_of(":");
    text::join_exec(&parts, sep.as_slice())
}

pub fn inferred_parsed(
    input: &[char],
    warnings: Vec<String>,
    periods: Vec<Period>,
    overflow: bool,
) -> (r: ParsedTimeControl)
    ensures
        r@ == inferred_model(input@, string_views(warnings@), periods@, overflow),
{
    let mut warnings = warnings;
    if overflow {
        push_warning(&mut warnings, "inference_arithmetic_overflow");
        ParsedTimeControl {
            raw: text::string_of(input),
            normalized: None,
            periods: Vec::new(),
            mode: Mode::Normal,
            warnings,
            inferred: true,
            overflow: true,
        }
    } else {
        let normalized = format_periods_exec(&periods);
        let r = ParsedTimeControl {
            raw: text::string_of(input),
            normalized: Some(string_of(normalized.as_slice())),
            periods,
            mode: Mode::Normal,
            warnings,
            inferred: true,
            overflow: false,
        };
        assert(r@.periods == periods@);
        r
    }
}

/// Strict notation first, then the inference rules, then free-text
/// templates.
pub open spec fn pipeline(s: Seq<char>, w: Seq<Seq<char>>) -> Option<TimeControlModel> {
    inference::first_some(
        strict::try_strict(s, w),
        inference::first_some(inference::inference(s, w), inference::free_text_templates(s, w)),
    )
}

/// A value that could not be interpreted.
pub open spec fn unknown_model(w: Seq<Seq<char>>) -> TimeControlModel {
    TimeControlModel {
        raw: Seq::empty(),
        normalized: None,
        periods: Seq::empty(),
        mode: Mode::Unknown,
        warnings: w,
        inferred: false,
        overflow: false,
    }
}

pub open spec fn with_raw(m: TimeControlModel, raw: Seq<char>) -> TimeControlModel {
    TimeControlModel {
        raw,
        normalized: m.normalized,
        periods: m.periods,
        mode: m.mode,
        warnings: m.warnings,
        inferred: m.inferred,
        overflow: m.overflow,
    }
}

/// The interpretation of a time-control value that is not blank: the
/// preprocessed value through the pipeline; failing that, the same without a
/// trailing qualifier word; failing that, unknown. The text as given is kept
/// as `raw`.
pub open spec fn interpret(raw: Seq<char>) -> TimeControlModel {
    let p = inference::preprocess(text::trim(raw));
    let m = if p.residue {
        unknown_model(p.warnings)
    } else {
        match pipeline(p.normalized, p.warnings) {
            Some(m) => m,
            None => match inference::trailing_qualifier_core(p.normalized) {
                Some(core) => match pipeline(
                    core,
                    p.warnings.push("ignored_trailing_qualifier_suffix"@),
                ) {
                    Some(m) => m,
                    None => unknown_model(p.warnings),
                },
                None => unknown_model(p.warnings),
            },
        }
    };
    with_raw(m, raw)
}

fn run_pipeline(s: &[char], warnings: &Vec<String>) -> (r: Option<ParsedTimeControl>)
    ensures
        opt_model(r) == pipeline(s@, string_views(warnings@)),
{
    let r = strict::try_strict_parse(s, warnings);
    if r.is_some() {
        return r;
    }
    let r = inference::try_inference(s, warnings);
    if r.is_some() {
        return r;
    }
    inference::try_free_text_templates(s, warnings)
}

fn unknown_parsed(warnings: Vec<String>) -> (r: ParsedTimeControl)
    ensures
        r@ == unknown_model(string_views(warnings@)),
{
    let r = ParsedTimeControl {
        raw: String::new(),
        normalized: None,
        periods: Vec::new(),
        mode: Mode::Unknown,
        warnings,
        inferred: false,
        overflow: false,
    };
    assert(r@.periods =~= Seq::<Period>::empty());
    r
}

/// Parses a time-control value. A blank value is an error ("empty input");
/// anything else is interpreted (see `interpret`), keeping the text as given
/// as `raw`.
pub fn parse_timecontrol(raw: &str) -> (r: Result<ParsedTimeControl, TimeControlError>)
    ensures
        match r {
            Ok(p) => text::trim(raw@).len() > 0 && p@ == interpret(raw@),
            Err(e) => text::trim(raw@).len() == 0 && e.message@ == "empty input"@,
        },
{
    let chars = text::chars_of(raw);
    let input = text::trim_chars(chars.as_slice());
    if input.len() == 0 {
        return Err(TimeControlError { message: string_from("empty input") });
    }
    let pre = inference::preprocess_exec(input.as_slice());
    let warnings = pre.warnings;
    let mut m = if pre.has_ambiguous_quote_residue {
        unknown_parsed(warnings)
    } else {
        match run_pipeline(pre.normalized.as_slice(), &warnings) {
            Some(m) => m,
            None => match inference::strip_trailing_qualifier_suffix(pre.normalized.as_slice()) {
                Some(core) => {
                    let mut fallback = clone_strings(&warnings);
                    push_warning(&mut fallback, "ignored_trailing_qualifier_suffix");
                    match run_pipeline(core.as_slice(), &fallback) {
                        Some(m) => m,
                        None => unknown_parsed(warnings),
                    }
                },
                None => unknown_parsed(warnings),
            },
        }
    };
    m.raw = string_from(raw);
    Ok(m)
}

/// The normalized notation of a time-control value, if it has one.
pub fn normalize_timecontrol(raw: &str) -> (r: Option<String>)
    ensures
        opt_string_view(r) == (if text::trim(raw@).len() == 0 {
            None
        } else {
            interpret(raw@).normalized
        }),
{
    match parse_timecontrol(raw) {
        Ok(parsed) => parsed.normalized,
        Err(_) => None,
    }
}

/// The speed category of an estimated game duration in seconds (base plus
/// forty increments).
pub open spec fn category_of_seconds(estimate: int) -> Seq<char> {
    if estimate <= 29 {
        "ultra-bullet"@
    } else if estimate <= 179 {
        "bullet"@
    } else if estimate <= 479 {
        "blitz"@
    } else if estimate <= 1499 {
        "rapid"@
    } else {
        "classical"@
    }
}

/// The category of a normal, non-overflowed time control with at least one
/// period, from its first period.
pub open spec fn category(m: TimeControlModel) -> Option<Seq<char>> {
    if m.mode != Mode::Normal || m.overflow || m.periods.len() == 0 {
        None
    } else {
        let p = m.periods[0];
        let inc: int = match p.increment_seconds {
            Some(i) => i as int,
            None => 0,
        };
        Some(category_of_seconds(p.base_seconds + 40 * inc))
    }
}

pub open spec fn opt_str_view(o: Option<&'static str>) -> Option<Seq<char>> {
    match o {
        Some(s) => Some(s@),
        None => None,
    }
}

pub fn category_from_parsed_timecontrol(parsed: &ParsedTimeControl) -> (r: Option<&'static str>)
    ensures
        opt_str_view(r) == category(parsed@),
{
    match parsed.mode {
        Mode::Normal => {},
        _ => return None,
    }
    if parsed.overflow || parsed.periods.len() == 0 {
        return None;
    }
    let period = parsed.periods[0];
    let increment: u64 = match period.increment_seconds {
        Some(i) => i as u64,
        None => 0,
    };
    let estimated_seconds: u64 = period.base_seconds as u64 + 40 * increment;
    if estimated_seconds <= 29 {
        Some("ultra-bullet")
    } else if estimated_seconds <= 179 {
        Some("bullet")
    } else if estimated_seconds <= 479 {
        Some("blitz")
    } else if estimated_seconds <= 1499 {
        Some("rapid")
    } else {
        Some("classical")
    }
}

/// The category of a time-control value, if it has one.
pub fn categorize_timecontrol(raw: &str) -> (r: Option<&'static str>)
    ensures
        opt_str_view(r) == (if text::trim(raw@).len() == 0 {
            None
        } else {
            category(interpret(raw@))
        }),
{
    match parse_timecontrol(raw) {
        Ok(parsed) => category_from_parsed_timecontrol(&parsed),
        Err(_) => None,
    }
}

/// The JSON object of a parsed time control.
pub fn timecontrol_to_json(parsed: &ParsedTimeControl) -> (r: String)
    ensures
        r@ == json::timecontrol_json(parsed@),
{
    json::render(parsed)
}

/// What stands for a value that cannot be parsed at all: unknown, with a
/// `parse_error` warning.
pub open spec fn parse_error_model(raw: Seq<char>) -> TimeControlModel {
    TimeControlModel {
        raw,
        normalized: None,
        periods: Seq::empty(),
        mode: Mode::Unknown,
        warnings: seq!["parse_error"@],
        inferred: false,
        overflow: false,
    }
}

/// The JSON of a time-control value: its interpretation, or for a blank
/// value the parse-error stand-in.
pub fn timecontrol_json_of(raw: &str) -> (r: String)
    ensures
        r@ == json::timecontrol_json(
            if text::trim(raw@).len() == 0 {
                parse_error_model(raw@)
            } else {
                interpret(raw@)
            },
        ),
{
    match parse_timecontrol(raw) {
        Ok(parsed) => timecontrol_to_json(&parsed),
        Err(_) => {
            let mut warnings: Vec<String> = Vec::new();
            push_warning(&mut warnings, "parse_error");
            let parsed = ParsedTimeControl {
                raw: string_from(raw),
                normalized: None,
                periods: Vec::new(),
                mode: Mode::Unknown,
                warnings,
                inferred: false,
                overflow: false,
            };
            assert(parsed@.warnings =~= seq!["parse_error"@]);
            assert(parsed@.periods =~= Seq::<Period>::empty());
            timecontrol_to_json(&parsed)
        },
    }
}

/// `chess_timecontrol_normalize(VARCHAR) -> VARCHAR`: the normalized
/// notation, NULL when there is none or the input is NULL.
pub struct ChessTimecontrolNormalizeScalar;

/// `chess_timecontrol_json(VARCHAR) -> VARCHAR`: the JSON interpretation,
/// NULL for a NULL input.
pub struct ChessTimecontrolJsonScalar;

/// `chess_timecontrol_category(VARCHAR) -> VARCHAR`: the speed category,
/// NULL when there is none or the input is NULL.
pub struct ChessTimecontrolCategoryScalar;

impl ChessTimecontrolNormalizeScalar {
    /// The output for one row (`None`: a NULL input).
    pub fn invoke_row(value: Option<&str>) -> (r: VarcharOutput)
        ensures
            output_view(r) == match value {
                Some(v) => if text::trim(v@).len() == 0 {
                    None
                } else {
                    interpret(v@).normalized
                },
                None => None,
            },
    {
        match value {
            Some(v) => output_of(normalize_timecontrol(v)),
            None => null_row_output(VarcharNullBehavior::Null),
        }
    }
}

impl ChessTimecontrolJsonScalar {
    pub fn invoke_row(value: Option<&str>) -> (r: VarcharOutput)
        ensures
            output_view(r) == match value {
                Some(v) => Some(
                    json::timecontrol_json(
                        if text::trim(v@).len() == 0 {
                            parse_error_model(v@)
                        } else {
                            interpret(v@)
                        },
                    ),
                ),
                None => None,
            },
    {
        match value {
            Some(v) => VarcharOutput::Value(timecontrol_json_of(v)),
            None => null_row_output(VarcharNullBehavior::Null),
        }
    }
}

impl ChessTimecontrolCategoryScalar {
    pub fn invoke_row(value: Option<&str>) -> (r: VarcharOutput)
        ensures
            output_view(r) == match value {
                Some(v) => if text::trim(v@).len() == 0 {
                    None
                } else {
                    category(interpret(v@))
                },
                None => None,
            },
    {
        match value {
            Some(v) => match categorize_timecontrol(v) {
                Some(c) => VarcharOutput::Value(string_from(c)),
                None => VarcharOutput::Null,
            },
            None => null_row_output(VarcharNullBehavior::Null),
        }
    }
}

/// An overflowed interpretation has neither normalized text nor periods.
pub open spec fn overflow_clean(m: TimeControlModel) -> bool {
    m.overflow ==> m.normalized is None && m.periods.len() == 0
}

pub open spec fn opt_overflow_clean(o: Option<TimeControlModel>) -> bool {
    o matches Some(m) ==> overflow_clean(m)
}

proof fn lemma_inference_clean(s: Seq<char>, w: Seq<Seq<char>>)
    ensures
        opt_overflow_clean(inference::g_prefix_shorthand(s, w)),
        opt_overflow_clean(inference::apostrophe_per_move_shorthand(s, w)),
        opt_overflow_clean(inference::compact_fide_apostrophe_shorthand(s, w)),
        opt_overflow_clean(inference::fide_additional_wording(s, w)),
        opt_overflow_clean(inference::compact_fide_triple_plus(s, w)),
        opt_overflow_clean(inference::two_stage_slash_shorthand(s, w)),
        opt_overflow_clean(inference::compact_minute_second_increment(s, w)),
        opt_overflow_clean(inference::clock_style_increment(s, w)),
        opt_overflow_clean(inference::apostrophe_notation(s, w)),
        opt_overflow_clean(inference::plus_minutes_shorthand(s, w)),
        opt_overflow_clean(inference::bare_minutes(s, w)),
        opt_overflow_clean(inference::inference(s, w)),
        opt_overflow_clean(inference::free_text_templates(s, w)),
{
}

proof fn lemma_pipeline_clean(s: Seq<char>, w: Seq<Seq<char>>)
    ensures
        opt_overflow_clean(pipeline(s, w)),
{
    lemma_inference_clean(s, w);
}

/// Law: an interpretation that overflowed keeps no periods and no
/// normalized notation.
pub proof fn law_overflow_has_no_periods(raw: Seq<char>)
    ensures
        interpret(raw).overflow ==> interpret(raw).normalized is None && interpret(
            raw,
        ).periods.len() == 0,
{
    let p = inference::preprocess(text::trim(raw));
    lemma_pipeline_clean(p.normalized, p.warnings);
    match inference::trailing_qualifier_core(p.normalized) {
        Some(core) => lemma_pipeline_clean(
            core,
            p.warnings.push("ignored_trailing_qualifier_suffix"@),
        ),
        None => {},
    }
}

/// Law: the interpretation keeps the text as given, untrimmed, as `raw`.
pub proof fn law_raw_preserved(raw: Seq<char>)
    ensures
        interpret(raw).raw == raw,
{
}

/// Law: a normal, non-overflowed time control with a first period of base
/// `b` seconds and increment `i` seconds (0 when absent) is categorised by
/// the estimate `b + 40 * i`: up to 29 s ultra-bullet, 30 to 179 s bullet,
/// 180 to 479 s blitz, 480 to 1499 s rapid, from 1500 s classical. Any
/// other time control has no category.
pub proof fn law_category_from_estimate(m: TimeControlModel)
    ensures
        (m.mode != Mode::Normal || m.overflow || m.periods.len() == 0) ==> category(m) is None,
        (m.mode == Mode::Normal && !m.overflow && m.periods.len() > 0) ==> ({
            let b: int = m.periods[0].base_seconds as int;
            let i: int = match m.periods[0].increment_seconds {
                Some(v) => v as int,
                None => 0,
            };
            let e = b + 40 * i;
            &&& e <= 29 ==> category(m) == Some("ultra-bullet"@)
            &&& 30 <= e <= 179 ==> category(m) == Some("bullet"@)
            &&& 180 <= e <= 479 ==> category(m) == Some("blitz"@)
            &&& 480 <= e <= 1499 ==> category(m) == Some("rapid"@)
            &&& 1500 <= e ==> category(m) == Some("classical"@)
        }),
{
}

} // verus!
