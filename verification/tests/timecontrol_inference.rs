#![allow(unused_imports)]
use duckdb_chess::chess::timecontrol::{
    categorize_timecontrol, category_from_parsed_timecontrol, normalize_timecontrol,
    parse_timecontrol, timecontrol_to_json, Mode, ParsedTimeControl, Period,
};

#[test]
fn inference_test_minute_shorthand_n_plus_i() {
    let result = parse_timecontrol("3+2").unwrap();
    assert_eq!(result.normalized, Some("180+2".to_string()));
    assert!(result.inferred);
    assert!(
        result
            .warnings
            .iter()
            .any(|w| w.contains("interpreted_small_base_as_minutes"))
    );
}

#[test]
fn inference_test_minute_shorthand_15_plus_10() {
    let result = parse_timecontrol("15+10").unwrap();
    assert_eq!(result.normalized, Some("900+10".to_string()));
    assert!(result.inferred);
}

#[test]
fn inference_test_minute_shorthand_75_30() {
    let result = parse_timecontrol("75+30").unwrap();
    assert_eq!(result.normalized, Some("4500+30".to_string()));
    assert!(result.inferred);
}

#[test]
fn inference_test_minute_shorthand_90_30() {
    let result = parse_timecontrol("90+30").unwrap();
    assert_eq!(result.normalized, Some("5400+30".to_string()));
    assert!(result.inferred);
}

#[test]
fn inference_test_bare_minute_shorthand() {
    let result = parse_timecontrol("25").unwrap();
    assert_eq!(result.normalized, Some("1500".to_string()));
    assert!(result.inferred);
}

#[test]
fn inference_test_normalize_punctuation_pipe() {
    let result = parse_timecontrol("75 | 30").unwrap();
    assert_eq!(result.normalized, Some("4500+30".to_string()));
}

#[test]
fn inference_test_normalize_quoted() {
    let result = parse_timecontrol("\"180+2\"").unwrap();
    assert_eq!(result.normalized, Some("180+2".to_string()));
}

#[test]
fn test_normalize_mixed_wrapper_quotes() {
    let result = parse_timecontrol("'\"180+2\"'").unwrap();
    assert_eq!(result.normalized, Some("180+2".to_string()));
    assert!(result.warnings.iter().any(|w| w == "stripped_quotes"));
}

#[test]
fn test_normalize_repeated_outer_quote_noise_around_minute_shorthand() {
    let result = parse_timecontrol("''\"15 + 10\"''").unwrap();
    assert_eq!(result.normalized, Some("900+10".to_string()));
    assert!(result.warnings.iter().any(|w| w == "stripped_quotes"));
}

#[test]
fn inference_test_normalize_spaces_around_operators() {
    let result = parse_timecontrol("15 + 10").unwrap();
    assert_eq!(result.normalized, Some("900+10".to_string()));
}

#[test]
fn test_normalize_spaces_around_plus_left_only() {
    let result = parse_timecontrol("15 +10").unwrap();
    assert_eq!(result.normalized, Some("900+10".to_string()));
}

#[test]
fn test_normalize_spaces_around_plus_right_only() {
    let result = parse_timecontrol("15+ 10").unwrap();
    assert_eq!(result.normalized, Some("900+10".to_string()));
}

#[test]
fn test_normalize_spaces_around_slash_and_colon_in_staged() {
    let result = parse_timecontrol("40 / 5400 + 30 : 1800 + 30").unwrap();
    assert_eq!(result.normalized, Some("40/5400+30:1800+30".to_string()));
}

#[test]
fn test_normalize_mixed_operator_whitespace_in_stage_by_moves() {
    let result = parse_timecontrol("90 + 30 / 30 + 30").unwrap();
    assert_eq!(result.normalized, Some("5400+30:1800+30".to_string()));
}

#[test]
fn inference_test_apostrophe_notation() {
    let result = parse_timecontrol("10'+5''").unwrap();
    assert_eq!(result.normalized, Some("600+5".to_string()));
}

#[test]
fn test_apostrophe_notation_with_spaces_is_preserved() {
    let result = parse_timecontrol("3' + 2''").unwrap();
    assert_eq!(result.normalized, Some("180+2".to_string()));
}

#[test]
fn inference_test_apostrophe_minutes_only() {
    let result = parse_timecontrol("10'").unwrap();
    assert_eq!(result.normalized, Some("600".to_string()));
    assert!(result.inferred);
}

#[test]
fn inference_test_apostrophe_seconds_only() {
    let result = parse_timecontrol("5''").unwrap();
    assert_eq!(result.normalized, Some("5".to_string()));
    assert!(result.inferred);
}

#[test]
fn inference_test_strip_trailing_apostrophe_for_spec_like_value() {
    let result = parse_timecontrol("90+30'").unwrap();
    assert_eq!(result.normalized, Some("5400+30".to_string()));
    assert!(
        result
            .warnings
            .iter()
            .any(|w| w == "stripped_trailing_apostrophe")
    );
}

#[test]
fn inference_test_apostrophe_per_move_suffix() {
    let result = parse_timecontrol("3' + 2''/mv from move 1").unwrap();
    assert_eq!(result.normalized, Some("180+2".to_string()));
    assert!(
        result
            .warnings
            .iter()
            .any(|w| w == "interpreted_apostrophe_per_move_suffix")
    );
}

#[test]
fn inference_test_apostrophe_per_move_suffix_larger_base() {
    let result = parse_timecontrol("15' + 10''/mv from move 1").unwrap();
    assert_eq!(result.normalized, Some("900+10".to_string()));
}

#[test]
fn inference_test_compact_minute_second_text_abbreviation() {
    let result = parse_timecontrol("3 mins + 2 seconds increment").unwrap();
    assert_eq!(result.normalized, Some("180+2".to_string()));
    assert!(
        result
            .warnings
            .iter()
            .any(|w| w == "interpreted_compact_minute_second_increment")
    );
}

#[test]
fn inference_test_compact_classical_minute_second_text_abbreviation() {
    let result = parse_timecontrol("90 mins + 30 Secs").unwrap();
    assert_eq!(result.normalized, Some("5400+30".to_string()));
}

#[test]
fn inference_test_compact_minute_second_text_with_prefix_label() {
    let result = parse_timecontrol("Standard: 90mins + 30sec increment").unwrap();
    assert_eq!(result.normalized, Some("5400+30".to_string()));
}

#[test]
fn inference_test_compact_minute_second_without_minute_unit() {
    let result = parse_timecontrol("90+30 sec per move").unwrap();
    assert_eq!(result.normalized, Some("5400+30".to_string()));
}

#[test]
fn inference_test_compact_classical_with_trailing_qualifier_suffix() {
    let result = parse_timecontrol("90 + 30 OFICIAL").unwrap();
    assert_eq!(result.normalized, Some("5400+30".to_string()));
    assert!(
        result
            .warnings
            .iter()
            .any(|w| w == "ignored_trailing_qualifier_suffix")
    );
}

#[test]
fn inference_test_suffix_with_digits_is_not_stripped() {
    let result = parse_timecontrol("90 + 30 round2").unwrap();
    assert_eq!(result.normalized, None);
}

#[test]
fn test_malformed_suffix_with_whitespace_operators_still_fails() {
    // Regression tests: ensure inputs with digit-bearing suffixes still fail
    // (non-digit suffixes are stripped as trailing qualifiers - existing behavior)
    let result = parse_timecontrol("90 + 30 round2").unwrap();
    assert_eq!(result.normalized, None);

    // Verify that valid controls with digit-bearing suffixes still fail
    let result = parse_timecontrol("15 + 10 test123").unwrap();
    assert_eq!(result.normalized, None);

    let result = parse_timecontrol("40 / 5400 + 30 : 1800 + 30 abc456").unwrap();
    assert_eq!(result.normalized, None);

    // These should succeed because non-digit suffixes are stripped
    let result = parse_timecontrol("15 + 10 valid").unwrap();
    assert_eq!(result.normalized, Some("900+10".to_string()));
    assert!(
        result
            .warnings
            .iter()
            .any(|w| w == "ignored_trailing_qualifier_suffix")
    );
}

#[test]
fn inference_test_clock_style_base_with_increment() {
    let result = parse_timecontrol("1:30.00 + 30 seconds increment from move 1").unwrap();
    assert_eq!(result.normalized, Some("5400+30".to_string()));
    assert!(
        result
            .warnings
            .iter()
            .any(|w| w == "interpreted_clock_style_base")
    );
}

#[test]
fn inference_test_compact_fide_two_stage_with_game_token() {
    let result = parse_timecontrol("90'/40+30'/G+30''").unwrap();
    assert_eq!(result.normalized, Some("40/5400+30:1800+30".to_string()));
}

#[test]
fn inference_test_compact_fide_two_stage_with_end_token_and_ampersand() {
    let result = parse_timecontrol("90'/40m + 30'/end & 30/m").unwrap();
    assert_eq!(result.normalized, Some("40/5400+30:1800+30".to_string()));
}

#[test]
fn inference_test_compact_fide_two_stage_bonus_increment_wording() {
    let result = parse_timecontrol("90'/40 moves + 30' + 30'' bonus increment").unwrap();
    assert_eq!(result.normalized, Some("40/5400+30:1800+30".to_string()));
}

#[test]
fn inference_test_compact_fide_two_stage_additional_wording() {
    let result = parse_timecontrol("90mins+30second additional +30mins after move 40").unwrap();
    assert_eq!(result.normalized, Some("40/5400+30:1800+30".to_string()));
}

#[test]
fn inference_test_compact_fide_triple_plus() {
    let result = parse_timecontrol("90 + 30 + 30s per move").unwrap();
    assert_eq!(result.normalized, Some("40/5400+30:1800+30".to_string()));
}

#[test]
fn inference_test_two_stage_slash_shorthand_missing_move_qualifier() {
    let result = parse_timecontrol("90+30/30+30").unwrap();
    assert_eq!(result.normalized, Some("5400+30:1800+30".to_string()));
    assert!(
        result
            .warnings
            .iter()
            .any(|w| w == "interpreted_two_stage_slash_shorthand")
    );
}

#[test]
fn inference_test_failure_unparseable() {
    let result = parse_timecontrol("klassisch").unwrap();
    assert_eq!(result.normalized, None);
}

#[test]
fn test_unbalanced_quote_fragment_fails_safely() {
    let result = parse_timecontrol("\"90 + \"30").unwrap();
    assert_eq!(result.normalized, None);
    assert_eq!(result.mode, Mode::Unknown);
    assert!(
        result
            .warnings
            .iter()
            .any(|w| w == "ambiguous_quote_residue")
    );
}

#[test]
fn inference_test_free_text_increment_not_counted_as_base_seconds() {
    let result = parse_timecontrol("game in 3 minutes + 2 seconds per move").unwrap();
    assert_eq!(result.normalized, Some("180+2".to_string()));
}

#[test]
fn inference_test_g_prefix_compact_n_plus_i() {
    let result = parse_timecontrol("g60+30").unwrap();
    assert_eq!(result.normalized, Some("3600+30".to_string()));
    assert!(
        result
            .warnings
            .iter()
            .any(|w| w == "interpreted_g_prefix_as_minutes")
    );
}

#[test]
fn inference_test_g_prefix_slash_semicolon_inc_suffix() {
    let result = parse_timecontrol("G/90; +30inc").unwrap();
    assert_eq!(result.normalized, Some("5400+30".to_string()));
}

#[test]
fn inference_test_g_prefix_seconds_per_move() {
    let result = parse_timecontrol("G90 + 30 seconds/move").unwrap();
    assert_eq!(result.normalized, Some("5400+30".to_string()));
}

#[test]
fn inference_test_game_prefix_seconds_per_move() {
    let result = parse_timecontrol("Game/15 + 10 seconds per move").unwrap();
    assert_eq!(result.normalized, Some("900+10".to_string()));
}

#[test]
fn inference_test_g_prefix_added_per_move_text() {
    let result = parse_timecontrol("G: 15 min + 10 seconds added per move").unwrap();
    assert_eq!(result.normalized, Some("900+10".to_string()));
}

#[test]
fn inference_test_free_text_fide_classical_verbose_template() {
    let result = parse_timecontrol(
        "90 minutes for 40 moves + 30 minutes for the rest + 30 seconds per move from move one",
    )
    .unwrap();
    assert_eq!(result.normalized, Some("40/5400+30:1800+30".to_string()));
    assert!(
        result
            .warnings
            .iter()
            .any(|w| w == "matched_free_text_template_fide_classical")
    );
}

#[test]
fn inference_test_free_text_fide_classical_compact_template() {
    let result = parse_timecontrol("90min./40 + 30min. + 30s./move").unwrap();
    assert_eq!(result.normalized, Some("40/5400+30:1800+30".to_string()));
}

#[test]
fn inference_test_free_text_increment_only_is_not_base_time() {
    let result = parse_timecontrol("30 sec per move").unwrap();
    assert_eq!(result.normalized, None);
}

#[test]
fn inference_test_overflow_boundary_exactly_at_limit() {
    let result = parse_timecontrol("G71582788").unwrap();
    assert!(!result.overflow);
    assert!(
        !result
            .warnings
            .contains(&"inference_arithmetic_overflow".to_string())
    );
    assert_eq!(result.normalized, Some("4294967280".to_string()));
}

#[test]
fn inference_test_overflow_just_over_limit() {
    let result = parse_timecontrol("G71582789").unwrap();
    assert!(result.overflow);
    assert!(
        result
            .warnings
            .contains(&"inference_arithmetic_overflow".to_string())
    );
    assert_eq!(result.normalized, None);
    assert!(result.periods.is_empty());
}

#[test]
fn inference_test_g_prefix_overflow() {
    let result = parse_timecontrol("G71582789").unwrap();
    assert!(result.overflow);
    assert!(
        result
            .warnings
            .contains(&"inference_arithmetic_overflow".to_string())
    );
    assert_eq!(result.normalized, None);
}

#[test]
fn inference_test_compact_minute_second_overflow() {
    let result = parse_timecontrol("71582789 mins + 30 seconds").unwrap();
    assert!(result.overflow);
    assert!(
        result
            .warnings
            .contains(&"inference_arithmetic_overflow".to_string())
    );
    assert_eq!(result.normalized, None);
}

#[test]
fn inference_test_clock_style_overflow() {
    let result = parse_timecontrol("1193047:00 + 30 sec").unwrap();
    assert!(result.overflow);
    assert!(
        result
            .warnings
            .contains(&"inference_arithmetic_overflow".to_string())
    );
    assert_eq!(result.normalized, None);
}

#[test]
fn rule_results_keep_their_input_as_raw() {
    let input: Vec<char> = "game in 3 minutes + 2 seconds per move".chars().collect();
    let warnings: Vec<String> = Vec::new();
    let p = duckdb_chess::chess::timecontrol::inference::try_free_text_templates(&input, &warnings).unwrap();
    assert_eq!(p.raw, "game in 3 minutes + 2 seconds per move");
    assert_eq!(p.normalized, Some("180+2".to_string()));
    assert_eq!(p.periods, vec![Period { moves: None, base_seconds: 180, increment_seconds: Some(2) }]);
    assert!(p.inferred);
    assert_eq!(p.warnings, vec!["matched_free_text_template".to_string()]);

    let strict: Vec<char> = "40/5400:1800".chars().collect();
    let q = duckdb_chess::chess::timecontrol::strict::try_strict_parse(&strict, &warnings).unwrap();
    assert_eq!(q.raw, "40/5400:1800");
}

fn groups(gs: &[Option<&str>]) -> Vec<Option<Vec<char>>> {
    gs.iter().map(|g| g.map(|s| s.chars().collect())).collect()
}

#[test]
fn rules_compute_from_given_groups() {
    use_rules_from_groups();
}

fn use_rules_from_groups() {
    let input: Vec<char> = "1:30 + 30".chars().collect();
    let w: Vec<String> = Vec::new();
    let p = duckdb_chess::chess::timecontrol::inference::clock_style_increment_from_groups(
        &groups(&[Some("1:30 + 30"), Some("1"), Some("30"), Some("30")]),
        &input,
        &w,
    )
    .unwrap();
    assert_eq!(p.normalized, Some("5400+30".to_string()));
    assert_eq!(p.raw, "1:30 + 30");
    assert_eq!(p.warnings, vec!["interpreted_clock_style_base".to_string()]);

    let g = duckdb_chess::chess::timecontrol::inference::g_prefix_from_groups(
        &groups(&[Some("60"), Some("60"), None]),
        &input,
        &w,
    )
    .unwrap();
    assert_eq!(g.normalized, Some("3600".to_string()));
    assert!(duckdb_chess::chess::timecontrol::inference::g_prefix_from_groups(
        &groups(&[Some("x"), Some("x")]),
        &input,
        &w,
    )
    .is_none());

    let over = duckdb_chess::chess::timecontrol::inference::minutes_plus_seconds_from_groups(
        &groups(&[Some(""), Some("4294967295"), Some("5")]),
        "code",
        &input,
        &w,
    )
    .unwrap();
    assert!(over.overflow);
    assert!(over.periods.is_empty());
    assert_eq!(over.warnings, vec!["code".to_string(), "inference_arithmetic_overflow".to_string()]);

    let f = duckdb_chess::chess::timecontrol::inference::free_text_minutes_from_groups(
        Some(2),
        &vec![groups(&[Some("3 minutes"), Some("3")])],
        &vec![],
        &input,
        &w,
    )
    .unwrap();
    assert_eq!(f.normalized, Some("180+2".to_string()));

    let core = duckdb_chess::chess::timecontrol::inference::trailing_qualifier_from_groups(&groups(&[
        Some("5+3 blitz"),
        Some(" 5+3 "),
        Some(" blitz "),
    ]));
    assert_eq!(core, Some("5+3".chars().collect::<Vec<char>>()));
    let none = duckdb_chess::chess::timecontrol::inference::trailing_qualifier_from_groups(&groups(&[
        Some("5+3 b2"),
        Some("5+3"),
        Some("b2"),
    ]));
    assert_eq!(none, None);
}
