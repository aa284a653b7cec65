use duckdb_chess::chess::fields::{
    date_completeness_score, parse_best_date_field, parse_best_time_tz_field, parse_date_field,
    parse_time_tz_field, parse_tz_offset_seconds, parse_uinteger_field, TimeTz,
};
use duckdb_chess::chess::ErrorAccumulator;

fn date(raw: &str) -> (Option<i32>, Option<String>) {
    let mut errors = ErrorAccumulator::default();
    let d = parse_date_field(raw, "UTCDate", &mut errors);
    (d, errors.take())
}

fn time(raw: &str) -> (Option<TimeTz>, Option<String>) {
    let mut errors = ErrorAccumulator::default();
    let t = parse_time_tz_field(raw, "UTCTime", &mut errors);
    (t, errors.take())
}

#[test]
fn date_epoch_is_day_zero() {
    assert_eq!(date("1970.01.01"), (Some(0), None));
    assert_eq!(date("1969-12-31"), (Some(-1), None));
}

#[test]
fn date_with_dots_or_dashes() {
    assert_eq!(date("2024.01.15"), (Some(19737), None));
    assert_eq!(date(" 2024-01-15 "), (Some(19737), None));
}

#[test]
fn date_unknown_month_and_day_are_first() {
    assert_eq!(date("2024.??.??"), date("2024.01.01"));
    assert_eq!(date("2024.03.??"), date("2024.03.01"));
}

#[test]
fn date_unknown_year_is_null_without_error() {
    assert_eq!(date("????.??.??"), (None, None));
    assert_eq!(date("   "), (None, None));
}

#[test]
fn date_day_past_month_end_is_clamped() {
    assert_eq!(date("2023.02.30"), date("2023.02.28"));
    assert_eq!(date("2024.02.31"), date("2024.02.29"));
}

#[test]
fn date_errors_name_the_cause() {
    assert_eq!(
        date("abc"),
        (None, Some("Conversion error: UTCDate='abc' (chrono: input contains invalid characters)".to_string()))
    );
    assert_eq!(
        date("2024.x.01"),
        (None, Some("Conversion error: UTCDate='2024.x.01' (chrono: invalid digit found in string)".to_string()))
    );
    assert_eq!(
        date("2024.13.01"),
        (None, Some("Conversion error: UTCDate='2024.13.01' (chrono: input is out of range)".to_string()))
    );
    assert_eq!(
        date("0000.01.01"),
        (None, Some("Conversion error: UTCDate='0000.01.01' (chrono: year must be >= 1)".to_string()))
    );
    assert_eq!(
        date("2024.01.00"),
        (None, Some("Conversion error: UTCDate='2024.01.00' (chrono: input is out of range)".to_string()))
    );
}

#[test]
fn date_completeness_counts_known_parts() {
    assert_eq!(date_completeness_score("2024.05.17"), 3);
    assert_eq!(date_completeness_score("2024.05.??"), 2);
    assert_eq!(date_completeness_score("2024.??.??"), 1);
    assert_eq!(date_completeness_score("????.??.??"), 0);
    assert_eq!(date_completeness_score("2024"), 0);
    assert_eq!(date_completeness_score(""), 0);
}

#[test]
fn best_date_prefers_the_most_complete_header() {
    let mut errors = ErrorAccumulator::default();
    let d = parse_best_date_field(Some("2024.??.??"), Some("2024.05.17"), None, &mut errors);
    assert_eq!(d, date("2024.05.17").0);
    assert!(errors.is_empty());
}

#[test]
fn best_date_ties_keep_header_precedence() {
    let mut errors = ErrorAccumulator::default();
    let d = parse_best_date_field(Some("2024.05.17"), Some("2023.01.01"), Some("2022.01.01"), &mut errors);
    assert_eq!(d, date("2024.05.17").0);
}

#[test]
fn best_date_falls_back_and_records_errors() {
    let mut errors = ErrorAccumulator::default();
    let d = parse_best_date_field(Some("2024.02.xx"), None, Some("2024.02.??"), &mut errors);
    assert_eq!(d, date("2024.02.01").0);
    assert_eq!(
        errors.take().as_deref(),
        Some("Conversion error: UTCDate='2024.02.xx' (chrono: invalid digit found in string)")
    );
}

#[test]
fn time_formats() {
    assert_eq!(time("12:34:56"), (Some(TimeTz { micros: 45_296_000_000, offset_seconds: 0 }), None));
    assert_eq!(time("12:34:56Z"), (Some(TimeTz { micros: 45_296_000_000, offset_seconds: 0 }), None));
    assert_eq!(time("00:00:01+02:30"), (Some(TimeTz { micros: 1_000_000, offset_seconds: 9000 }), None));
    assert_eq!(time("00:00:01-01:00"), (Some(TimeTz { micros: 1_000_000, offset_seconds: -3600 }), None));
    assert_eq!(time(""), (None, None));
}

#[test]
fn time_errors() {
    assert_eq!(
        time("12:34:56+25:00"),
        (None, Some("Conversion error: UTCTime='12:34:56+25:00'".to_string()))
    );
    assert_eq!(
        time("25:00:00"),
        (None, Some("Conversion error: UTCTime='25:00:00' (chrono: input is out of range)".to_string()))
    );
}

#[test]
fn tz_offsets() {
    let c = |s: &str| s.chars().collect::<Vec<char>>();
    assert_eq!(parse_tz_offset_seconds(&c("01:30")), Some(5400));
    assert_eq!(parse_tz_offset_seconds(&c(" 23:59 ")), Some(86340));
    assert_eq!(parse_tz_offset_seconds(&c("24:00")), None);
    assert_eq!(parse_tz_offset_seconds(&c("0130")), None);
}

#[test]
fn best_time_uses_time_header_when_utc_time_fails() {
    let mut errors = ErrorAccumulator::default();
    let t = parse_best_time_tz_field(Some("nope"), Some("10:00:00"), &mut errors);
    assert_eq!(t, Some(TimeTz { micros: 36_000_000_000, offset_seconds: 0 }));
    assert!(errors.take().unwrap().starts_with("Conversion error: UTCTime='nope' (chrono: "));
}

#[test]
fn ratings() {
    let mut errors = ErrorAccumulator::default();
    assert_eq!(parse_uinteger_field(Some(" 2500 "), "WhiteElo", &mut errors), Some(2500));
    assert_eq!(parse_uinteger_field(None, "WhiteElo", &mut errors), None);
    assert!(errors.is_empty());
    assert_eq!(parse_uinteger_field(Some("-"), "WhiteElo", &mut errors), None);
    assert_eq!(errors.take().as_deref(), Some("Conversion error: WhiteElo='-'"));
}
