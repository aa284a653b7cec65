use duckdb_chess::chess::visitor::GameVisitor;
use pgn_reader::{Outcome, RawComment, RawTag, Reader, SanPlus, Skip, Visitor};
use std::ops::ControlFlow;

/// Feeds the PGN reader's events to the library's game visitor.
struct PgnGame(GameVisitor);

impl Visitor for PgnGame {
    type Tags = ();
    type Movetext = Vec<char>;
    type Output = ();

    fn begin_tags(&mut self) -> ControlFlow<Self::Output, Self::Tags> {
        self.0.begin_tags();
        ControlFlow::Continue(())
    }

    fn tag(&mut self, _: &mut Self::Tags, key: &[u8], value: RawTag<'_>) -> ControlFlow<Self::Output> {
        self.0.tag(key, value.as_bytes());
        ControlFlow::Continue(())
    }

    fn begin_movetext(&mut self, _: Self::Tags) -> ControlFlow<Self::Output, Self::Movetext> {
        ControlFlow::Continue(Vec::new())
    }

    fn begin_variation(&mut self, _: &mut Self::Movetext) -> ControlFlow<Self::Output, Skip> {
        ControlFlow::Continue(Skip(true))
    }

    fn san(&mut self, movetext: &mut Self::Movetext, san: SanPlus) -> ControlFlow<Self::Output> {
        self.0.san(movetext, &san.to_string());
        ControlFlow::Continue(())
    }

    fn comment(&mut self, movetext: &mut Self::Movetext, comment: RawComment<'_>) -> ControlFlow<Self::Output> {
        self.0.comment(movetext, comment.as_bytes());
        ControlFlow::Continue(())
    }

    fn outcome(&mut self, _: &mut Self::Movetext, outcome: Outcome) -> ControlFlow<Self::Output> {
        self.0.outcome(outcome.to_string());
        ControlFlow::Continue(())
    }

    fn end_game(&mut self, movetext: Self::Movetext) -> Self::Output {
        self.0.end_game(movetext);
    }
}

#[test]
fn test_visitor_basic_parsing() {
    let pgn = r#"[Event "Test Game"]
[Site "Internet"]
[Result "1-0"]
1. e4 e5 2. Nf3 1-0"#;

    let mut reader = Reader::new(pgn.as_bytes());
    let mut visitor = PgnGame(GameVisitor::new());

    reader.read_game(&mut visitor).unwrap();

    let game = visitor.0.current_game.expect("Should have parsed a game");
    assert_eq!(game.event.as_deref(), Some("Test Game"));
    assert_eq!(game.site.as_deref(), Some("Internet"));
    assert_eq!(game.result.as_deref(), Some("1-0"));
    assert_eq!(game.movetext, "1. e4 e5 2. Nf3");
}

#[test]
fn test_visitor_unknown_headers_are_ignored() {
    let pgn = r#"[Event "Known"]
[SomeRandomTag "noise"]
[Site "Somewhere"]
1. e4 1-0"#;

    let mut reader = Reader::new(pgn.as_bytes());
    let mut visitor = PgnGame(GameVisitor::new());

    reader.read_game(&mut visitor).unwrap();

    let game = visitor.0.current_game.expect("Should have parsed a game");
    assert_eq!(game.event.as_deref(), Some("Known"));
    assert_eq!(game.site.as_deref(), Some("Somewhere"));
    assert_eq!(game.result.as_deref(), Some("1-0"));
}

#[test]
fn test_visitor_duplicate_headers_preserve_first_value() {
    let pgn = r#"[Event "First Event"]
[Event "Second Event"]
[WhiteElo "2000"]
[WhiteElo "2500"]
1. e4 1-0"#;

    let mut reader = Reader::new(pgn.as_bytes());
    let mut visitor = PgnGame(GameVisitor::new());

    reader.read_game(&mut visitor).unwrap();

    let game = visitor.0.current_game.expect("Should have parsed a game");
    assert_eq!(game.event.as_deref(), Some("First Event"));
    assert_eq!(game.white_elo, Some(2000));
}

#[test]
fn test_visitor_with_comments() {
    let pgn = r#"[Event "Comment Test"]
1. e4 { best by test } e5 1-0"#;

    let mut reader = Reader::new(pgn.as_bytes());
    let mut visitor = PgnGame(GameVisitor::new());

    reader.read_game(&mut visitor).unwrap();

    let game = visitor.0.current_game.expect("Should have parsed a game");
    assert_eq!(game.movetext, "1. e4 { best by test } e5");
}

#[test]
fn test_visitor_empty_movetext() {
    let pgn = r#"[Event "Empty"]
[Result "*"]
*"#;
    let mut reader = Reader::new(pgn.as_bytes());
    let mut visitor = PgnGame(GameVisitor::new());

    reader.read_game(&mut visitor).unwrap();

    let game = visitor.0.current_game.expect("Should have parsed a game");
    assert_eq!(game.movetext, "");
    assert_eq!(game.result.as_deref(), Some("*"));
}

#[test]
fn test_visitor_movetext_finalization_trims_surrounding_whitespace() {
    let mut visitor = GameVisitor::new();
    visitor.movetext_buffer = "  1. e4 e5  ".to_string();

    visitor.build_game_record();

    let game = visitor.current_game.expect("Should have built a record");
    assert_eq!(game.movetext, "1. e4 e5");
}

#[test]
fn test_visitor_error_finalization_trims_movetext_and_sets_parse_error() {
    let mut visitor = GameVisitor::new();
    visitor.movetext_buffer = "  1. e4  ".to_string();

    visitor.finalize_game_with_error("boom".to_string());

    let game = visitor.current_game.expect("Should have built a record");
    assert_eq!(game.movetext, "1. e4");
    assert_eq!(game.parse_error.as_deref(), Some("boom"));
}

#[test]
fn test_visitor_numeric_fields() {
    let pgn = r#"[WhiteElo "2500"]
[BlackElo "2400"]
1. e4 1-0"#;

    let mut reader = Reader::new(pgn.as_bytes());
    let mut visitor = PgnGame(GameVisitor::new());

    reader.read_game(&mut visitor).unwrap();

    let game = visitor.0.current_game.expect("Should have parsed a game");
    assert_eq!(game.white_elo, Some(2500));
    assert_eq!(game.black_elo, Some(2400));
}

#[test]
fn test_visitor_comment_before_first_move() {
    let pgn = r#"[Event "Comment Test"]
{ opening comment } 1. e4 e5"#;

    let mut reader = Reader::new(pgn.as_bytes());
    let mut visitor = PgnGame(GameVisitor::new());

    reader.read_game(&mut visitor).unwrap();

    let game = visitor.0.current_game.expect("Should have parsed a game");
    assert_eq!(game.movetext, "{ opening comment } 1. e4 e5");
}

#[test]
fn test_visitor_multiple_comments() {
    let pgn = r#"[Event "Multiple Comments"]
1. e4 { first } e5 { second } 2. Nf3 { third }"#;

    let mut reader = Reader::new(pgn.as_bytes());
    let mut visitor = PgnGame(GameVisitor::new());

    reader.read_game(&mut visitor).unwrap();

    let game = visitor.0.current_game.expect("Should have parsed a game");
    assert_eq!(
        game.movetext,
        "1. e4 { first } e5 { second } 2. Nf3 { third }"
    );
}

#[test]
fn test_visitor_lichess_annotations() {
    let pgn = r#"[Event "Lichess Annotations"]
1. d4 { [%eval 0.25] [%clk 1:30:43] } Nf6 { [%eval 0.22] [%clk 1:30:42] }"#;

    let mut reader = Reader::new(pgn.as_bytes());
    let mut visitor = PgnGame(GameVisitor::new());

    reader.read_game(&mut visitor).unwrap();

    let game = visitor.0.current_game.expect("Should have parsed a game");
    assert_eq!(
        game.movetext,
        "1. d4 { [%eval 0.25] [%clk 1:30:43] } Nf6 { [%eval 0.22] [%clk 1:30:42] }"
    );
}
