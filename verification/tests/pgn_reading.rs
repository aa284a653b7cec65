use duckdb_chess::chess::fields::TimeTz;
use duckdb_chess::chess::visitor::GameVisitor;
use pgn_reader::{Outcome, RawComment, RawTag, Reader, SanPlus, Skip, Visitor};
use std::ops::ControlFlow;

/// Feeds the PGN reader's events to the library's game visitor.
struct PgnGame(GameVisitor);

impl PgnGame {
    fn new() -> Self {
        PgnGame(GameVisitor::new())
    }
}

impl Visitor for PgnGame {
    type Tags = ();
    type Movetext = Vec<char>;
    type Output = ();

    fn begin_tags(&mut self) -> ControlFlow<Self::Output, Self::Tags> {
        self.0.begin_tags();
        ControlFlow::Continue(())
    }

    fn tag(&mut self, _: &mut Self::Tags, key: &[u8], value: RawTag<'_>) -> ControlFlow<Self::Output> {
        self.0.tag(key, value.as_bytes());
        ControlFlow::Continue(())
    }

    fn begin_movetext(&mut self, _: Self::Tags) -> ControlFlow<Self::Output, Self::Movetext> {
        ControlFlow::Continue(Vec::new())
    }

    fn begin_variation(&mut self, _: &mut Self::Movetext) -> ControlFlow<Self::Output, Skip> {
        ControlFlow::Continue(Skip(true))
    }

    fn san(&mut self, movetext: &mut Self::Movetext, san: SanPlus) -> ControlFlow<Self::Output> {
        self.0.san(movetext, &san.to_string());
        ControlFlow::Continue(())
    }

    fn comment(&mut self, movetext: &mut Self::Movetext, comment: RawComment<'_>) -> ControlFlow<Self::Output> {
        self.0.comment(movetext, comment.as_bytes());
        ControlFlow::Continue(())
    }

    fn outcome(&mut self, _: &mut Self::Movetext, outcome: Outcome) -> ControlFlow<Self::Output> {
        self.0.outcome(outcome.to_string());
        ControlFlow::Continue(())
    }

    fn end_game(&mut self, movetext: Self::Movetext) -> Self::Output {
        self.0.end_game(movetext);
    }
}

/// Days from 1970-01-01 of a proleptic Gregorian date.
fn days_from_civil(year: i32, month: u32, day: u32) -> i32 {
    let y = year - if month <= 2 { 1 } else { 0 };
    let era = if y >= 0 { y } else { y - 399 } / 400;
    let yoe = y - era * 400;
    let m = month as i32;
    let doy = (153 * (m + if m > 2 { -3 } else { 9 }) + 2) / 5 + day as i32 - 1;
    let doe = yoe * 365 + yoe / 4 - yoe / 100 + doy;
    (era * 146097 + doe - 719468) as i32
}

/// The 64-bit layout of a TIME WITH TIME ZONE value: 40 bits of
/// microseconds, then 24 bits of `15:59:59` minus the offset.
fn packed_bits(t: &TimeTz) -> u64 {
    const OFFSET_SENTINEL_SECONDS: i32 = 16 * 60 * 60 - 1;
    let encoded_offset = OFFSET_SENTINEL_SECONDS - t.offset_seconds;
    let micros_part = (t.micros as u64) & ((1u64 << 40) - 1);
    let offset_part = (encoded_offset as i64 as u64) & ((1u64 << 24) - 1);
    (micros_part << 24) | offset_part
}

#[test]
fn test_pgn_visitor_basic_game() {

    let pgn_content = r#"
[Event "Test Game"]
[Site "Test Site"]
[White "Player 1"]
[Black "Player 2"]
[Result "1-0"]

1. e4 e5 2. Nf3 Nc6 1-0
"#;

    let mut visitor = PgnGame::new();
    let mut reader = Reader::new(pgn_content.as_bytes());

    let result = reader.read_game(&mut visitor);
    assert!(result.is_ok());

    let game = visitor.0.current_game.take();
    assert!(game.is_some());

    let game = game.unwrap();
    assert_eq!(game.event.as_deref().unwrap(), "Test Game");
    assert_eq!(game.white.as_deref().unwrap(), "Player 1");
    assert_eq!(game.black.as_deref().unwrap(), "Player 2");
    assert_eq!(game.result.as_deref().unwrap(), "1-0");
    assert_eq!(game.site.as_deref().unwrap(), "Test Site");
}

#[test]
fn test_pgn_visitor_missing_headers() {

    let pgn_content = r#"
[Event "Minimal Game"]
[White "?"]
[Black "?"]
[Result "*"]

1. d4 d5 *
"#;

    let mut visitor = PgnGame::new();
    let mut reader = Reader::new(pgn_content.as_bytes());

    let result = reader.read_game(&mut visitor);
    assert!(result.is_ok());

    let game = visitor.0.current_game.take();
    assert!(game.is_some());

    let game = game.unwrap();
    assert_eq!(game.event.as_deref().unwrap(), "Minimal Game");
    assert_eq!(game.white.as_deref().unwrap(), "?");
    assert_eq!(game.black.as_deref().unwrap(), "?");
    assert_eq!(game.result.as_deref().unwrap(), "*");

    // Missing headers should be None
    assert_eq!(game.site, None);
    assert_eq!(game.eco, None);
    assert_eq!(game.opening, None);
}

#[test]
fn test_pgn_visitor_partial_headers() {

    let pgn_content = r#"
[Event "Game with some missing fields"]
[White "White Player"]
[Black "Black Player"]
[Result "1/2-1/2"]

1. e4 e5 1/2-1/2
"#;

    let mut visitor = PgnGame::new();
    let mut reader = Reader::new(pgn_content.as_bytes());

    let result = reader.read_game(&mut visitor);
    assert!(result.is_ok());

    let game = visitor.0.current_game.take();
    assert!(game.is_some());

    let game = game.unwrap();
    assert_eq!(
        game.event.as_deref().unwrap(),
        "Game with some missing fields"
    );
    assert_eq!(game.white.as_deref().unwrap(), "White Player");
    assert_eq!(game.black.as_deref().unwrap(), "Black Player");
    assert_eq!(game.result.as_deref().unwrap(), "1/2-1/2");

    // Missing headers should be None
    assert_eq!(game.site, None);
    assert!(game.utc_date.is_none());
    assert_eq!(game.eco, None);
    assert_eq!(game.opening, None);
    assert_eq!(game.white_elo, None);
    assert_eq!(game.black_elo, None);
}

#[test]
fn test_pgn_visitor_all_headers() {

    let pgn_content = r#"
[Event "Test with all headers"]
[Site "https://example.com"]
[Date "2024.01.01"]
[Round "1"]
[White "Player A"]
[Black "Player B"]
[Result "1-0"]
[WhiteElo "2000"]
[BlackElo "1900"]
[WhiteTitle "GM"]
[BlackTitle "IM"]
[ECO "B00"]
[Opening "Test Opening"]
[UTCDate "2024.01.01"]
[UTCTime "12:00:00"]
[TimeControl "180+0"]
[Termination "Normal"]

1. e4 e5 2. Nf3 Nc6 1-0
"#;

    let mut visitor = PgnGame::new();
    let mut reader = Reader::new(pgn_content.as_bytes());

    let result = reader.read_game(&mut visitor);
    assert!(result.is_ok());

    let game = visitor.0.current_game.take();
    assert!(game.is_some());

    let game = game.unwrap();
    assert_eq!(game.event.as_deref().unwrap(), "Test with all headers");
    assert_eq!(game.site.as_deref().unwrap(), "https://example.com");
    // Note: Date header is mapped to utc_date in GameRecord
    assert_eq!(game.white.as_deref().unwrap(), "Player A");
    assert_eq!(game.black.as_deref().unwrap(), "Player B");
    assert_eq!(game.result.as_deref().unwrap(), "1-0");
    assert_eq!(game.white_elo.unwrap(), 2000);
    assert_eq!(game.black_elo.unwrap(), 1900);
    assert_eq!(game.white_title.as_deref().unwrap(), "GM");
    assert_eq!(game.black_title.as_deref().unwrap(), "IM");
    assert_eq!(game.eco.as_deref().unwrap(), "B00");
    assert_eq!(game.opening.as_deref().unwrap(), "Test Opening");

    let utc_date = game.utc_date.unwrap();
    assert_eq!(utc_date, days_from_civil(2024, 1, 1));

    let utc_time = game.utc_time.unwrap();
    let micros = 12i64 * 3600 * 1_000_000;
    let micros_part = (micros as u64) & ((1u64 << 40) - 1);
    let offset_sentinel = (16u64 * 60 * 60) - 1; // 15:59:59 encodes +00:00
    assert_eq!(packed_bits(&utc_time), (micros_part << 24) | offset_sentinel);

    assert_eq!(game.time_control.as_deref().unwrap(), "180+0");
    assert_eq!(game.termination.as_deref().unwrap(), "Normal");
}

#[test]
fn test_pgn_visitor_date_candidate_selection_prefers_more_complete_partial() {

    let pgn_content = r#"
[Event "Partial Date Selection"]
[Date "1951.??.??"]
[EventDate "1951.09.??"]
[Result "*"]

*
"#;

    let mut visitor = PgnGame::new();
    let mut reader = Reader::new(pgn_content.as_bytes());
    reader.read_game(&mut visitor).unwrap();

    let game = visitor.0.current_game.take().unwrap();
    let utc_date = game.utc_date.unwrap();
    assert_eq!(utc_date, days_from_civil(1951, 9, 1));
    assert!(game.parse_error.is_none());
}

#[test]
fn test_pgn_visitor_date_candidate_selection_tie_break_by_precedence() {

    let pgn_content = r#"
[Event "Date Precedence"]
[UTCDate "1999.12.31"]
[Date "2000.01.01"]
[EventDate "2001.01.01"]
[Result "*"]

*
"#;

    let mut visitor = PgnGame::new();
    let mut reader = Reader::new(pgn_content.as_bytes());
    reader.read_game(&mut visitor).unwrap();

    let game = visitor.0.current_game.take().unwrap();
    let utc_date = game.utc_date.unwrap();
    assert_eq!(utc_date, days_from_civil(1999, 12, 31));
    assert!(game.parse_error.is_none());
}

#[test]
fn test_pgn_visitor_date_unknown_is_null() {

    let pgn_content = r#"
[Event "Unknown Date"]
[Date "????.??.??"]
[Result "*"]

*
"#;

    let mut visitor = PgnGame::new();
    let mut reader = Reader::new(pgn_content.as_bytes());
    reader.read_game(&mut visitor).unwrap();

    let game = visitor.0.current_game.take().unwrap();
    assert!(game.utc_date.is_none());
    assert!(game.parse_error.is_none());
}

#[test]
fn test_pgn_visitor_date_partial_defaults() {

    let pgn_content = r#"
[Event "Partial Date Defaults"]
[Date "2000.??.??"]
[EventDate "2000.06.??"]
[Result "*"]

*
"#;

    let mut visitor = PgnGame::new();
    let mut reader = Reader::new(pgn_content.as_bytes());
    reader.read_game(&mut visitor).unwrap();

    let game = visitor.0.current_game.take().unwrap();
    let utc_date = game.utc_date.unwrap();
    // EventDate is more complete (year+month) than Date (year only), so it wins.
    assert_eq!(utc_date, days_from_civil(2000, 6, 1));
    assert!(game.parse_error.is_none());
}

#[test]
fn test_pgn_visitor_date_clamps_out_of_range_day_for_30_day_month() {

    let pgn_content = r#"
[Event "Clamp November Day Overflow"]
[Date "2015.11.31"]
[Result "*"]

*
"#;

    let mut visitor = PgnGame::new();
    let mut reader = Reader::new(pgn_content.as_bytes());
    reader.read_game(&mut visitor).unwrap();

    let game = visitor.0.current_game.take().unwrap();
    let utc_date = game.utc_date.unwrap();
    assert_eq!(utc_date, days_from_civil(2015, 11, 30));
    assert!(game.parse_error.is_none());
}

#[test]
fn test_pgn_visitor_date_clamps_out_of_range_day_for_non_leap_february() {

    let pgn_content = r#"
[Event "Clamp Non-Leap February Day Overflow"]
[Date "1997.02.29"]
[Result "*"]

*
"#;

    let mut visitor = PgnGame::new();
    let mut reader = Reader::new(pgn_content.as_bytes());
    reader.read_game(&mut visitor).unwrap();

    let game = visitor.0.current_game.take().unwrap();
    let utc_date = game.utc_date.unwrap();
    assert_eq!(utc_date, days_from_civil(1997, 2, 28));
    assert!(game.parse_error.is_none());
}

#[test]
fn test_pgn_visitor_date_clamps_out_of_range_day_for_leap_february() {

    let pgn_content = r#"
[Event "Clamp Leap February Day Overflow"]
[Date "2000.02.30"]
[Result "*"]

*
"#;

    let mut visitor = PgnGame::new();
    let mut reader = Reader::new(pgn_content.as_bytes());
    reader.read_game(&mut visitor).unwrap();

    let game = visitor.0.current_game.take().unwrap();
    let utc_date = game.utc_date.unwrap();
    assert_eq!(utc_date, days_from_civil(2000, 2, 29));
    assert!(game.parse_error.is_none());
}

#[test]
fn test_pgn_visitor_date_clamp_preserves_header_precedence() {

    let pgn_content = r#"
[Event "Clamp Precedence"]
[UTCDate "2015.11.31"]
[Date "2015.11.15"]
[EventDate "2015.11.10"]
[Result "*"]

*
"#;

    let mut visitor = PgnGame::new();
    let mut reader = Reader::new(pgn_content.as_bytes());
    reader.read_game(&mut visitor).unwrap();

    let game = visitor.0.current_game.take().unwrap();
    let utc_date = game.utc_date.unwrap();
    assert_eq!(utc_date, days_from_civil(2015, 11, 30));
    assert!(game.parse_error.is_none());
}

#[test]
fn test_pgn_visitor_date_invalid_records_chrono_error() {

    let pgn_content = r#"
[Event "Invalid Date"]
[Date "2000.13.40"]
[Result "*"]

*
"#;

    let mut visitor = PgnGame::new();
    let mut reader = Reader::new(pgn_content.as_bytes());
    reader.read_game(&mut visitor).unwrap();

    let game = visitor.0.current_game.take().unwrap();
    assert!(game.utc_date.is_none());
    let err = game.parse_error.unwrap();
    assert!(err.contains("UTCDate"));
    assert!(err.contains("2000.13.40"));
    assert!(err.contains("chrono:"));
}

#[test]
fn test_pgn_visitor_date_fallback_from_invalid_utcdate_to_date() {

    let pgn_content = r#"
[Event "Invalid UTCDate Fallback Date"]
[UTCDate "2024.13.01"]
[Date "2024.01.02"]
[EventDate "2024.01.03"]
[Result "*"]

*
"#;

    let mut visitor = PgnGame::new();
    let mut reader = Reader::new(pgn_content.as_bytes());
    reader.read_game(&mut visitor).unwrap();

    let game = visitor.0.current_game.take().unwrap();
    let utc_date = game.utc_date.unwrap();
    assert_eq!(utc_date, days_from_civil(2024, 1, 2));

    let err = game.parse_error.unwrap();
    assert!(err.contains("UTCDate='2024.13.01'"));
    assert!(err.contains("chrono:"));
}

#[test]
fn test_pgn_visitor_date_fallback_from_invalid_utcdate_to_eventdate() {

    let pgn_content = r#"
[Event "Invalid UTCDate Fallback EventDate"]
[UTCDate "2024.13.01"]
[Date "????.??.??"]
[EventDate "2024.03.04"]
[Result "*"]

*
"#;

    let mut visitor = PgnGame::new();
    let mut reader = Reader::new(pgn_content.as_bytes());
    reader.read_game(&mut visitor).unwrap();

    let game = visitor.0.current_game.take().unwrap();
    let utc_date = game.utc_date.unwrap();
    assert_eq!(utc_date, days_from_civil(2024, 3, 4));

    let err = game.parse_error.unwrap();
    assert!(err.contains("UTCDate='2024.13.01'"));
    assert!(err.contains("chrono:"));
}

#[test]
fn test_pgn_visitor_date_fallback_preserves_partial_completeness_policy() {

    let pgn_content = r#"
[Event "Invalid UTCDate Partial Fallback"]
[UTCDate "2024.13.01"]
[Date "2000.??.??"]
[EventDate "2000.06.??"]
[Result "*"]

*
"#;

    let mut visitor = PgnGame::new();
    let mut reader = Reader::new(pgn_content.as_bytes());
    reader.read_game(&mut visitor).unwrap();

    let game = visitor.0.current_game.take().unwrap();
    let utc_date = game.utc_date.unwrap();
    assert_eq!(utc_date, days_from_civil(2000, 6, 1));

    let err = game.parse_error.unwrap();
    assert!(err.contains("UTCDate='2024.13.01'"));
}

#[test]
fn test_pgn_visitor_time_variants_and_offsets() {

    // Zulu
    let pgn_content = r#"
[Event "Time Variants"]
[UTCTime "12:00:00Z"]
[Result "*"]

*
"#;
    let mut visitor = PgnGame::new();
    let mut reader = Reader::new(pgn_content.as_bytes());
    reader.read_game(&mut visitor).unwrap();
    let game = visitor.0.current_game.take().unwrap();
    let utc_time = game.utc_time.unwrap();
    let micros = 12i64 * 3600 * 1_000_000;
    let micros_part = (micros as u64) & ((1u64 << 40) - 1);
    let offset_sentinel: i32 = (16 * 60 * 60) - 1;
    let encoded_offset = offset_sentinel - 0;
    let offset_part = (encoded_offset as i64 as u64) & ((1u64 << 24) - 1);
    assert_eq!(packed_bits(&utc_time), (micros_part << 24) | offset_part);

    // Explicit positive offset
    let pgn_content = r#"
[Event "Time Variants"]
[UTCTime "12:00:00+01:30"]
[Result "*"]

*
"#;
    let mut visitor = PgnGame::new();
    let mut reader = Reader::new(pgn_content.as_bytes());
    reader.read_game(&mut visitor).unwrap();
    let game = visitor.0.current_game.take().unwrap();
    let utc_time = game.utc_time.unwrap();
    let offset_seconds: i32 = 1 * 3600 + 30 * 60;
    let encoded_offset = offset_sentinel - offset_seconds;
    let offset_part = (encoded_offset as i64 as u64) & ((1u64 << 24) - 1);
    assert_eq!(packed_bits(&utc_time), (micros_part << 24) | offset_part);

    // Explicit negative offset
    let pgn_content = r#"
[Event "Time Variants"]
[UTCTime "12:00:00-05:00"]
[Result "*"]

*
"#;
    let mut visitor = PgnGame::new();
    let mut reader = Reader::new(pgn_content.as_bytes());
    reader.read_game(&mut visitor).unwrap();
    let game = visitor.0.current_game.take().unwrap();
    let utc_time = game.utc_time.unwrap();
    let offset_seconds: i32 = -(5 * 3600);
    let encoded_offset = offset_sentinel - offset_seconds;
    let offset_part = (encoded_offset as i64 as u64) & ((1u64 << 24) - 1);
    assert_eq!(packed_bits(&utc_time), (micros_part << 24) | offset_part);
}

#[test]
fn test_pgn_visitor_time_fallback_from_invalid_utctime_to_time() {

    let pgn_content = r#"
[Event "Invalid UTCTime Fallback Time"]
[UTCTime "25:00:00"]
[Time "12:34:56"]
[Result "*"]

*
"#;

    let mut visitor = PgnGame::new();
    let mut reader = Reader::new(pgn_content.as_bytes());
    reader.read_game(&mut visitor).unwrap();

    let game = visitor.0.current_game.take().unwrap();
    let utc_time = game.utc_time.unwrap();

    let micros = (12i64 * 3600 + 34 * 60 + 56) * 1_000_000;
    let micros_part = (micros as u64) & ((1u64 << 40) - 1);
    let offset_sentinel: i32 = (16 * 60 * 60) - 1;
    let encoded_offset = offset_sentinel;
    let offset_part = (encoded_offset as i64 as u64) & ((1u64 << 24) - 1);
    assert_eq!(packed_bits(&utc_time), (micros_part << 24) | offset_part);

    let err = game.parse_error.unwrap();
    assert!(err.contains("UTCTime='25:00:00'"));
    assert!(err.contains("chrono:"));
}

#[test]
fn test_pgn_visitor_time_invalid_records_chrono_error() {

    let pgn_content = r#"
[Event "Invalid Time"]
[UTCTime "25:00:00"]
[Result "*"]

*
"#;

    let mut visitor = PgnGame::new();
    let mut reader = Reader::new(pgn_content.as_bytes());
    reader.read_game(&mut visitor).unwrap();

    let game = visitor.0.current_game.take().unwrap();
    assert!(game.utc_time.is_none());
    let err = game.parse_error.unwrap();
    assert!(err.contains("UTCTime"));
    assert!(err.contains("25:00:00"));
    assert!(err.contains("chrono:"));
}

#[test]
fn test_pgn_visitor_parser_stage_and_conversion_errors_combined() {

    let pgn_content = r#"
[Event "Parser Stage Error Game"]
[White "ParserErrorWhite"]
[Black "ParserErrorBlack"]
[WhiteElo "abc"]
[UTCDate "2024.13.01"]
[UTCTime "25:00:00"]
[Result "*"]

1. e4 { unterminated comment
"#;

    let mut visitor = PgnGame::new();
    let mut reader = Reader::new(pgn_content.as_bytes());

    let parser_error = reader.read_game(&mut visitor).unwrap_err();
    visitor.0.finalize_game_with_error(format!(
        "Parser-stage error: stage=read_game; file='inline-test.pgn'; game_index=1; error={}",
        parser_error
    ));

    let game = visitor.0.current_game.take().unwrap();
    assert_eq!(game.event.as_deref(), Some("Parser Stage Error Game"));
    assert!(game.white_elo.is_none());
    assert!(game.utc_date.is_none());
    assert!(game.utc_time.is_none());

    let parse_error = game.parse_error.unwrap();
    assert!(parse_error.contains("Parser-stage error: stage=read_game"));
    assert!(parse_error.contains("file='inline-test.pgn'"));
    assert!(parse_error.contains("game_index=1"));
    assert!(parse_error.contains("unterminated comment"));
    assert!(parse_error.contains("Conversion error: WhiteElo='abc'"));
    assert!(parse_error.contains("Conversion error: UTCDate='2024.13.01'"));
    assert!(parse_error.contains("Conversion error: UTCTime='25:00:00'"));
}

#[test]
fn test_pgn_visitor_movetext_with_annotations() {

    let pgn_content = r#"
[Event "Game with annotations"]
[White "Player 1"]
[Black "Player 2"]
[Result "1-0"]

1. e4 { [%eval 0.25] [%clk 1:30:43] } e5 { [%eval 0.22] [%clk 1:30:42] } 2. Nf3 1-0
"#;

    let mut visitor = PgnGame::new();
    let mut reader = Reader::new(pgn_content.as_bytes());

    let result = reader.read_game(&mut visitor);
    assert!(result.is_ok());

    let game = visitor.0.current_game.take();
    assert!(game.is_some());

    let game = game.unwrap();
    assert!(game.movetext.contains("e4"));
    assert!(game.movetext.contains("e5"));
    assert!(game.movetext.contains("Nf3"));
    assert!(game.movetext.contains("{")); // Should preserve annotations in raw movetext
}

#[test]
fn test_pgn_visitor_empty_movetext() {

    let pgn_content = r#"
[Event "Game with no moves"]
[White "Player 1"]
[Black "Player 2"]
[Result "*"]

*
"#;

    let mut visitor = PgnGame::new();
    let mut reader = Reader::new(pgn_content.as_bytes());

    let result = reader.read_game(&mut visitor);
    assert!(result.is_ok());

    let game = visitor.0.current_game.take();
    assert!(game.is_some());

    let game = game.unwrap();
    // Movetext should be empty (result is stored separately)
    assert!(game.movetext.trim().is_empty());
}

#[test]
fn test_pgn_visitor_malformed_headers() {

    let pgn_content = r#"
[Event "Malformed - incomplete headers
[White "Player 3"]

1. d4
"#;

    let mut visitor = PgnGame::new();
    let mut reader = Reader::new(pgn_content.as_bytes());

    // The pgn-reader library is very robust and typically handles malformed headers
    let result = reader.read_game(&mut visitor);
    // It might succeed with partial data or fail gracefully
    assert!(result.is_ok() || result.is_err());
}

#[test]
fn test_pgn_visitor_truncated_game() {

    let pgn_content = r#"
[Event "Truncated Game"]
[White "No one"]
"#;

    let mut visitor = PgnGame::new();
    let mut reader = Reader::new(pgn_content.as_bytes());

    let result = reader.read_game(&mut visitor);
    assert!(result.is_ok());

    // Game should be created but may have incomplete data
    reader.read_game(&mut visitor).unwrap();
    let game = visitor.0.current_game.take();
    // May or may not have a game depending on parser behavior
    if let Some(game) = game {
        assert_eq!(game.event.as_deref().unwrap(), "Truncated Game");
        assert_eq!(game.white.as_deref().unwrap(), "No one");
    }
}
