#![allow(unused_imports)]
use duckdb_chess::chess::timecontrol::{
    categorize_timecontrol, category_from_parsed_timecontrol, normalize_timecontrol,
    parse_timecontrol, timecontrol_to_json, Mode, ParsedTimeControl, Period,
};


#[test]
fn strict_test_strict_parse_question_mark() {
    let result = parse_timecontrol("?").unwrap();
    assert_eq!(result.normalized, Some("?".to_string()));
    assert_eq!(result.mode, Mode::Unknown);
}

#[test]
fn strict_test_strict_parse_dash() {
    let result = parse_timecontrol("-").unwrap();
    assert_eq!(result.normalized, Some("-".to_string()));
    assert_eq!(result.mode, Mode::Unlimited);
}

#[test]
fn strict_test_strict_parse_sandclock() {
    let result = parse_timecontrol("*60").unwrap();
    assert_eq!(result.normalized, Some("*60".to_string()));
    assert_eq!(result.mode, Mode::Sandclock);
}

#[test]
fn strict_test_strict_parse_simple() {
    let result = parse_timecontrol("180+2").unwrap();
    assert_eq!(result.normalized, Some("180+2".to_string()));
    assert!(!result.inferred);
}

#[test]
fn strict_test_strict_parse_by_moves() {
    let result = parse_timecontrol("40/5400+30").unwrap();
    assert_eq!(result.normalized, Some("40/5400+30".to_string()));
    assert!(!result.inferred);
}

#[test]
fn strict_test_strict_parse_multi_stage() {
    let result = parse_timecontrol("40/5400+30:1800+30").unwrap();
    assert_eq!(result.normalized, Some("40/5400+30:1800+30".to_string()));
    assert!(!result.inferred);
}

#[test]
fn strict_test_dont_reinterpret_large_values() {
    let result = parse_timecontrol("900+10").unwrap();
    assert_eq!(result.normalized, Some("900+10".to_string()));
    assert!(!result.inferred);
}

#[test]
fn strict_test_invalid_stage_with_non_numeric_moves_fails() {
    let result = parse_timecontrol("x/600+5").unwrap();
    assert_eq!(result.normalized, None);
}
