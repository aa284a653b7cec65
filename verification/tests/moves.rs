use duckdb_chess::chess::moves::{
    check_moves_subset, check_moves_subset_fast, check_moves_subset_with_parser,
    fen_to_epd, is_clean_mainline_movetext, MainlineCollector, ParsedMovetext, ReadOutcome,
};
use pgn_reader::{Outcome, Reader, SanPlus, Skip, Visitor};
use std::ops::ControlFlow;

/// Reads the mainline of movetext with the PGN reader, reporting moves and
/// the result to the library's collector.
struct Mainline(MainlineCollector);

impl Visitor for Mainline {
    type Tags = ();
    type Movetext = ();
    type Output = ();

    fn begin_tags(&mut self) -> ControlFlow<Self::Output, Self::Tags> {
        self.0.begin_game();
        ControlFlow::Continue(())
    }

    fn begin_movetext(&mut self, _tags: Self::Tags) -> ControlFlow<Self::Output, Self::Movetext> {
        ControlFlow::Continue(())
    }

    fn san(&mut self, _movetext: &mut Self::Movetext, san_plus: SanPlus) -> ControlFlow<Self::Output> {
        self.0.san(san_plus.to_string());
        ControlFlow::Continue(())
    }

    fn begin_variation(&mut self, _movetext: &mut Self::Movetext) -> ControlFlow<Self::Output, Skip> {
        ControlFlow::Continue(Skip(true))
    }

    fn outcome(&mut self, _movetext: &mut Self::Movetext, outcome: Outcome) -> ControlFlow<Self::Output> {
        self.0.outcome(outcome.to_string());
        ControlFlow::Continue(())
    }

    fn end_game(&mut self, _movetext: Self::Movetext) -> Self::Output {}
}

fn parse_movetext_mainline(movetext: &str) -> ParsedMovetext {
    if movetext.trim().is_empty() {
        return ParsedMovetext::blank();
    }
    let mut reader = Reader::new(std::io::Cursor::new(movetext.as_bytes()));
    let mut visitor = Mainline(MainlineCollector::new());
    let read = match reader.read_game(&mut visitor) {
        Ok(Some(())) => ReadOutcome::Game,
        Ok(None) => ReadOutcome::NoGame,
        Err(_) => ReadOutcome::Failed,
    };
    visitor.0.finish(read)
}

fn with_parser(short: &str, long: &str) -> bool {
    check_moves_subset_with_parser(
        short,
        long,
        &parse_movetext_mainline(short),
        &parse_movetext_mainline(long),
    )
}

#[test]
fn test_fen_to_epd_valid() {
    let fen = "rnbqkbnr/pppppppp/8/8/4P3/8/PPPP1PPP/RNBQKBNR b KQkq e3 0 1";
    assert_eq!(
        fen_to_epd(fen).as_deref(),
        Some("rnbqkbnr/pppppppp/8/8/4P3/8/PPPP1PPP/RNBQKBNR b KQkq e3")
    );
}

#[test]
fn test_fen_to_epd_invalid() {
    assert!(fen_to_epd("not a fen").is_none());
    assert!(fen_to_epd("").is_none());
}

#[test]
fn test_chess_moves_subset_exact_subset() {
    // Test short is prefix of long
    assert!(check_moves_subset("1. e4", "1. e4 e5", parse_movetext_mainline));
}

#[test]
fn test_chess_moves_subset_different_moves() {
    // Test different moves
    assert!(!check_moves_subset("1. d4", "1. e4 e5", parse_movetext_mainline));
}

#[test]
fn test_chess_moves_subset_same_game() {
    // Test identical sequences
    assert!(check_moves_subset("1. e4 e5", "1. e4 e5", parse_movetext_mainline));
}

#[test]
fn test_chess_moves_subset_short_longer_than_long() {
    // Test short is longer than long
    assert!(!check_moves_subset("1. e4 e5 2. Nf3", "1. e4", parse_movetext_mainline));
}

#[test]
fn test_chess_moves_subset_with_annotations() {
    // Test subset with annotations ignored
    assert!(check_moves_subset("1. e4 {comment} e5", "1. e4 e5 2. Nf3", parse_movetext_mainline));
}

#[test]
fn test_chess_moves_subset_with_variations() {
    // Test subset with variations ignored
    assert!(check_moves_subset("1. e4 (1. d4) e5", "1. e4 e5 2. Nf3", parse_movetext_mainline));
}

#[test]
fn test_chess_moves_subset_with_nags() {
    // Test subset with NAGs ignored
    assert!(check_moves_subset("1. e4! e5?", "1. e4 e5 2. Nf3", parse_movetext_mainline));
}

#[test]
fn test_chess_moves_subset_empty_cases() {
    // Test empty string cases
    assert!(check_moves_subset("", "1. e4", parse_movetext_mainline));
    assert!(!check_moves_subset("1. e4", "", parse_movetext_mainline));
    assert!(check_moves_subset("", "", parse_movetext_mainline));
}

#[test]
fn test_chess_moves_subset_invalid_non_empty_short() {
    assert!(!check_moves_subset("not movetext", "1. e4", parse_movetext_mainline));
}

#[test]
fn test_chess_moves_subset_invalid_non_empty_long() {
    assert!(!check_moves_subset("1. e4", "not movetext", parse_movetext_mainline));
}

#[test]
fn test_chess_moves_subset_both_invalid_non_empty() {
    assert!(!check_moves_subset("not movetext", "still not movetext", parse_movetext_mainline));
}

#[test]
fn test_chess_moves_subset_fast_path_clean_equivalence() {
    let cases = [
        ("1. e4", "1. e4 e5", true),
        ("1. e4 e5", "1. e4 e5", true),
        ("1. d4", "1. e4 e5", false),
        ("1. e4 e5 2. Nf3", "1. e4", false),
    ];

    for (short, long, expected) in cases {
        assert_eq!(check_moves_subset_fast(short, long), Some(expected));
        assert_eq!(with_parser(short, long), expected);
        assert_eq!(check_moves_subset(short, long, parse_movetext_mainline), expected);
    }
}

#[test]
fn test_chess_moves_subset_fast_path_ignores_trailing_results() {
    let cases = [
        ("1. e4 e5 1-0", "1. e4 e5", true),
        ("1. e4 e5", "1. e4 e5 0-1", true),
        ("1. e4 e5 1/2-1/2", "1. e4 e5 *", true),
        ("1. e4 e5 2. Nf3 *", "1. e4 e5", false),
    ];

    for (short, long, expected) in cases {
        assert_eq!(check_moves_subset_fast(short, long), Some(expected));
        assert_eq!(with_parser(short, long), expected);
        assert_eq!(check_moves_subset(short, long, parse_movetext_mainline), expected);
    }
}

#[test]
fn test_chess_moves_subset_falls_back_for_uncertain_input() {
    let cases = [
        ("1. e4 {comment} e5", "1. e4 e5 2. Nf3"),
        ("1. e4 (1. d4) e5", "1. e4 e5 2. Nf3"),
        ("1. e4! e5?", "1. e4 e5 2. Nf3"),
    ];

    for (short, long) in cases {
        assert_eq!(check_moves_subset_fast(short, long), None);
        assert_eq!(
            check_moves_subset(short, long, parse_movetext_mainline),
            with_parser(short, long)
        );
    }
}

#[test]
fn test_chess_moves_subset_falls_back_for_invalid_clean_tokens() {
    assert_eq!(check_moves_subset_fast("1. e4 e4", "1. e4 e4"), None);
    assert_eq!(
        check_moves_subset("1. e4 e4", "1. e4 e4", parse_movetext_mainline),
        with_parser("1. e4 e4", "1. e4 e4")
    );
}

#[test]
fn test_is_clean_mainline_movetext_detector() {
    assert!(is_clean_mainline_movetext("1. e4 e5 2. Nf3 Nc6"));
    assert!(is_clean_mainline_movetext("e4 e5"));
    assert!(is_clean_mainline_movetext("   "));

    assert!(!is_clean_mainline_movetext("1."));
    assert!(!is_clean_mainline_movetext("1.e4 e5"));
    assert!(!is_clean_mainline_movetext("1. e4 {comment} e5"));
    assert!(!is_clean_mainline_movetext("1. e4 (1. d4) e5"));
    assert!(!is_clean_mainline_movetext("1. e4! e5?"));
    assert!(!is_clean_mainline_movetext("not movetext"));
}

#[test]
fn fast_path_declines_san_that_does_not_read() {
    assert_eq!(check_moves_subset_fast("1. Nz9", "1. Nz9 e5"), None);
    assert_eq!(check_moves_subset_fast("1. e4", "1. e4 Nz9"), None);
}

#[test]
fn fast_path_compares_display_texts_of_played_moves() {
    assert_eq!(check_moves_subset_fast("1. e4 e5", "1. e4 e5 2. Nf3 Nc6"), Some(true));
    assert_eq!(check_moves_subset_fast("1. e4 e5 2. Nf3", "1. e4 e5"), Some(false));
    assert_eq!(check_moves_subset_fast("", "1. d4"), Some(true));
}

#[test]
fn zobrist_tracker_starts_from_the_documented_start_hash() {
    let mut tracker = duckdb_chess::chess::moves::ZobristTracker::new();
    assert_eq!(tracker.hash, duckdb_chess::chess::moves::START_ZOBRIST);
    assert_eq!(tracker.hash, 0x463b96181691fc9c);
    assert!(tracker.san("e4"));
    assert_ne!(tracker.hash, 0x463b96181691fc9c);
    assert_eq!(tracker.fen, "rnbqkbnr/pppppppp/8/8/4P3/8/PPPP1PPP/RNBQKBNR b KQkq e3 0 1");
    let before = tracker.hash;
    assert!(!tracker.san("e4"));
    assert!(!tracker.san("Nz9"));
    assert_eq!(tracker.hash, before);
    tracker.begin_game();
    assert_eq!(tracker.hash, 0x463b96181691fc9c);
}

#[test]
fn fast_path_decides_moveless_movetext() {
    assert_eq!(check_moves_subset_fast("", ""), Some(true));
    assert_eq!(check_moves_subset_fast("  ", "\t"), Some(true));
    assert_eq!(check_moves_subset_fast("1-0", ""), None);
}

#[test]
fn moves_json_entry_holds_the_move_played_and_the_position_after_it() {
    let mut json = duckdb_chess::chess::moves::MovesJson::new(Some(1));
    assert!(json.san("e4"));
    assert_eq!(json.fen, "rnbqkbnr/pppppppp/8/8/4P3/8/PPPP1PPP/RNBQKBNR b KQkq e3 0 1");
    assert!(!json.san("e5"));
    assert_eq!(
        json.finish(),
        "[{\"ply\":1,\"move\":\"e4\",\"fen\":\"rnbqkbnr/pppppppp/8/8/4P3/8/PPPP1PPP/RNBQKBNR b KQkq e3 0 1\",\"epd\":\"rnbqkbnr/pppppppp/8/8/4P3/8/PPPP1PPP/RNBQKBNR b KQkq e3\"}]"
    );
}
