#![allow(dead_code)]
//! Reading movetext with the PGN reader, each visitor handing its events
//! to the library's per-game state.
use duckdb_chess::chess::moves::{
    moves_json_plan, MainlineCollector, MovesJson, MovetextSerializer, ParsedMovetext, PlyCounter,
    ReadOutcome, ZobristTracker,
};
use pgn_reader::{Outcome, Reader, SanPlus, Skip, Visitor};
use std::io;
use std::ops::ControlFlow;

fn is_blank(movetext: &str) -> bool {
    let chars: Vec<char> = movetext.chars().collect();
    duckdb_chess::text::is_blank(&chars)
}

fn read_one<V: Visitor<Output = ()>>(movetext: &str, visitor: &mut V) -> ReadOutcome {
    let mut reader = Reader::new(io::Cursor::new(movetext.as_bytes()));
    match reader.read_game(visitor) {
        Ok(Some(())) => ReadOutcome::Game,
        Ok(None) => ReadOutcome::NoGame,
        Err(_) => ReadOutcome::Failed,
    }
}

/// Mainline SAN texts and result.
struct Mainline(MainlineCollector);

impl Visitor for Mainline {
    type Tags = ();
    type Movetext = ();
    type Output = ();

    fn begin_tags(&mut self) -> ControlFlow<(), ()> {
        self.0.begin_game();
        ControlFlow::Continue(())
    }

    fn begin_movetext(&mut self, _: ()) -> ControlFlow<(), ()> {
        ControlFlow::Continue(())
    }

    fn san(&mut self, _: &mut (), san_plus: SanPlus) -> ControlFlow<()> {
        self.0.san(san_plus.to_string());
        ControlFlow::Continue(())
    }

    fn begin_variation(&mut self, _: &mut ()) -> ControlFlow<(), Skip> {
        ControlFlow::Continue(Skip(true))
    }

    fn outcome(&mut self, _: &mut (), outcome: Outcome) -> ControlFlow<()> {
        self.0.outcome(outcome.to_string());
        ControlFlow::Continue(())
    }

    fn end_game(&mut self, _: ()) {}
}

fn parse_movetext_mainline(movetext: &str) -> ParsedMovetext {
    if is_blank(movetext) {
        return ParsedMovetext::blank();
    }
    let mut visitor = Mainline(MainlineCollector::new());
    let read = read_one(movetext, &mut visitor);
    visitor.0.finish(read)
}

/// Normalized movetext.
struct Normalize(MovetextSerializer);

impl Visitor for Normalize {
    type Tags = ();
    type Movetext = ();
    type Output = ();

    fn begin_tags(&mut self) -> ControlFlow<(), ()> {
        self.0.begin_game();
        ControlFlow::Continue(())
    }

    fn begin_movetext(&mut self, _: ()) -> ControlFlow<(), ()> {
        ControlFlow::Continue(())
    }

    fn san(&mut self, _: &mut (), san_plus: SanPlus) -> ControlFlow<()> {
        if self.0.move_count == usize::MAX {
            return ControlFlow::Break(());
        }
        self.0.san(&san_plus.to_string());
        ControlFlow::Continue(())
    }

    fn begin_variation(&mut self, _: &mut ()) -> ControlFlow<(), Skip> {
        ControlFlow::Continue(Skip(true))
    }

    fn outcome(&mut self, _: &mut (), outcome: Outcome) -> ControlFlow<()> {
        self.0.outcome(outcome.to_string());
        ControlFlow::Continue(())
    }

    fn end_game(&mut self, _: ()) {
        self.0.end_game();
    }
}

fn normalize_movetext(movetext: &str) -> String {
    if is_blank(movetext) {
        return String::new();
    }
    let mut visitor = Normalize(MovetextSerializer::new());
    let read = read_one(movetext, &mut visitor);
    visitor.0.finish(read)
}

/// Mainline move count.
struct PlyCount(PlyCounter);

impl Visitor for PlyCount {
    type Tags = ();
    type Movetext = ();
    type Output = ();

    fn begin_tags(&mut self) -> ControlFlow<(), ()> {
        self.0.begin_game();
        ControlFlow::Continue(())
    }

    fn begin_movetext(&mut self, _: ()) -> ControlFlow<(), ()> {
        ControlFlow::Continue(())
    }

    fn san(&mut self, _: &mut (), _: SanPlus) -> ControlFlow<()> {
        if self.0.count == usize::MAX {
            return ControlFlow::Break(());
        }
        self.0.san();
        ControlFlow::Continue(())
    }

    fn begin_variation(&mut self, _: &mut ()) -> ControlFlow<(), Skip> {
        ControlFlow::Continue(Skip(true))
    }

    fn end_game(&mut self, _: ()) {}
}

fn ply_count(movetext: &str) -> i64 {
    if is_blank(movetext) {
        return 0;
    }
    let mut visitor = PlyCount(PlyCounter::new());
    let read = read_one(movetext, &mut visitor);
    if visitor.0.count > i64::MAX as usize {
        return 0;
    }
    visitor.0.finish(read)
}

/// Zobrist hash of the final mainline position.
struct Zobrist(ZobristTracker);

impl Visitor for Zobrist {
    type Tags = ();
    type Movetext = ();
    type Output = ();

    fn begin_tags(&mut self) -> ControlFlow<(), ()> {
        self.0.begin_game();
        ControlFlow::Continue(())
    }

    fn begin_movetext(&mut self, _: ()) -> ControlFlow<(), ()> {
        ControlFlow::Continue(())
    }

    fn san(&mut self, _: &mut (), san_plus: SanPlus) -> ControlFlow<()> {
        if self.0.san(&san_plus.to_string()) {
            ControlFlow::Continue(())
        } else {
            ControlFlow::Break(())
        }
    }

    fn begin_variation(&mut self, _: &mut ()) -> ControlFlow<(), Skip> {
        ControlFlow::Continue(Skip(true))
    }

    fn outcome(&mut self, _: &mut (), _: Outcome) -> ControlFlow<()> {
        self.0.outcome();
        ControlFlow::Continue(())
    }

    fn end_game(&mut self, _: ()) {}
}

fn movetext_final_zobrist_hash(movetext: &str) -> Option<u64> {
    if is_blank(movetext) {
        return None;
    }
    let mut visitor = Zobrist(ZobristTracker::new());
    let read = read_one(movetext, &mut visitor);
    visitor.0.finish(movetext, read)
}

/// Per-ply JSON of the mainline.
struct Json(MovesJson);

impl Visitor for Json {
    type Tags = ();
    type Movetext = ();
    type Output = ();

    fn begin_tags(&mut self) -> ControlFlow<(), ()> {
        self.0.begin_game();
        ControlFlow::Continue(())
    }

    fn begin_movetext(&mut self, _: ()) -> ControlFlow<(), ()> {
        ControlFlow::Continue(())
    }

    fn san(&mut self, _: &mut (), san_plus: SanPlus) -> ControlFlow<()> {
        if self.0.ply == usize::MAX || !self.0.san(&san_plus.to_string()) {
            return ControlFlow::Break(());
        }
        ControlFlow::Continue(())
    }

    fn begin_variation(&mut self, _: &mut ()) -> ControlFlow<(), Skip> {
        ControlFlow::Continue(Skip(true))
    }

    fn end_game(&mut self, _: ()) {}
}

fn process_moves_with_limit(movetext: &str, max_ply: Option<i64>) -> Result<String, String> {
    let limit = match moves_json_plan(movetext, max_ply) {
        Some(limit) => limit,
        None => return Ok("[]".to_string()),
    };
    let mut visitor = Json(MovesJson::new(limit));
    let _ = read_one(movetext, &mut visitor);
    Ok(visitor.0.finish())
}


#[test]
fn test_process_moves_basic() {
    let input = "1. e4 e5";
    let json = process_moves_with_limit(input, None).unwrap();
    // Check structure roughly
    assert!(json.starts_with('['));
    assert!(json.ends_with(']'));
    assert!(json.contains(r#""ply":1,"move":"e4""#));
    assert!(json.contains(r#""ply":2,"move":"e5""#));
    assert!(json.contains(r#""epd":"#));
}

#[test]
fn test_process_moves_with_annotations() {
    let input = "1. e4 {comment} e5";
    let json = process_moves_with_limit(input, None).unwrap();
    assert!(json.contains(r#""move":"e5""#));
}

#[test]
fn test_process_moves_empty() {
    let input = "";
    let json = process_moves_with_limit(input, None).unwrap();
    assert_eq!(json, "[]");
}

#[test]
fn test_process_moves_max_ply_zero() {
    let input = "1. e4 e5";
    let json = process_moves_with_limit(input, Some(0)).unwrap();
    assert_eq!(json, "[]");
}

#[test]
fn test_process_moves_with_result_marker() {
    let input = "1. e4 e5 1-0";
    let json = process_moves_with_limit(input, None).unwrap();
    assert!(json.contains(r#""ply":1,"move":"e4""#));
    assert!(json.contains(r#""ply":2,"move":"e5""#));
    // Should not contain result marker
    assert!(!json.contains("1-0"));
}

#[test]
fn test_process_moves_with_invalid_move() {
    let input = "1. e4 e5 INVALID";
    let json = process_moves_with_limit(input, None).unwrap();
    // Should return valid prefix up to e5
    assert!(json.contains(r#""ply":1,"move":"e4""#));
    assert!(json.contains(r#""ply":2,"move":"e5""#));
    // Should not include INVALID move
    assert!(!json.contains("INVALID"));
}

#[test]
fn test_process_moves_malformed_non_pgn_returns_empty_array() {
    let json = process_moves_with_limit("this is not movetext", None).unwrap();
    assert_eq!(json, "[]");
}

#[test]
fn test_process_moves_unterminated_comment_keeps_valid_prefix() {
    let json = process_moves_with_limit("1. e4 { unterminated comment", None).unwrap();
    assert!(json.starts_with('['));
    assert!(json.ends_with(']'));
    assert!(json.contains(r#""ply":1,"move":"e4""#));
}

#[test]
fn test_ply_count_ignores_junk_and_stops() {
    assert_eq!(ply_count("1. e4! {c} e5?? 1-0"), 2);
    assert_eq!(ply_count("1. e4 e5 INVALID 2. Nf3"), 3);
    assert_eq!(ply_count("1. e4 INVALID 2. Nf3"), 2);
    assert_eq!(ply_count("1. e4 e5 2. Kxe8"), 3);
}

#[test]
fn test_ply_count_malformed_parse_returns_zero() {
    assert_eq!(ply_count("1. e4 { unterminated comment"), 0);
}

#[test]
fn test_ply_count_empty_or_whitespace_returns_zero() {
    assert_eq!(ply_count(""), 0);
    assert_eq!(ply_count("   \n\t"), 0);
}

#[test]
fn test_chess_moves_hash_consistency_formatting() {
    // Test identical moves with different formatting produce same hash
    let hash1 = movetext_final_zobrist_hash("1. e4 e5").unwrap();
    let hash2 = movetext_final_zobrist_hash("1.e4 e5").unwrap();
    assert_eq!(hash1, hash2);
}

#[test]
fn test_chess_moves_hash_consistency_comments() {
    // Test identical moves with comments produce same hash
    let hash1 = movetext_final_zobrist_hash("1. e4 e5").unwrap();
    let hash2 = movetext_final_zobrist_hash("1. e4 {comment} e5").unwrap();
    assert_eq!(hash1, hash2);
}

#[test]
fn test_chess_moves_hash_consistency_variations() {
    // Test identical moves with variations produce same hash
    let hash1 = movetext_final_zobrist_hash("1. e4 e5").unwrap();
    let hash2 = movetext_final_zobrist_hash("1. e4 (1. d4) e5").unwrap();
    assert_eq!(hash1, hash2);
}

#[test]
fn test_chess_moves_hash_consistency_nags() {
    // Test identical moves with NAGs produce same hash
    let hash1 = movetext_final_zobrist_hash("1. e4 e5").unwrap();
    let hash2 = movetext_final_zobrist_hash("1. e4! e5?").unwrap();
    assert_eq!(hash1, hash2);
}

#[test]
fn test_chess_moves_hash_discrimination_different_moves() {
    // Test different moves produce different hashes
    let hash1 = movetext_final_zobrist_hash("1. e4 e5").unwrap();
    let hash2 = movetext_final_zobrist_hash("1. d4 d5").unwrap();
    assert_ne!(hash1, hash2);
}

#[test]
fn test_chess_moves_hash_discrimination_different_length() {
    // Test different length sequences produce different hashes
    let hash1 = movetext_final_zobrist_hash("1. e4").unwrap();
    let hash2 = movetext_final_zobrist_hash("1. e4 e5").unwrap();
    assert_ne!(hash1, hash2);
}

#[test]
fn test_chess_moves_hash_empty_string() {
    // Empty input returns NULL.
    assert!(movetext_final_zobrist_hash("").is_none());
}

#[test]
fn test_chess_moves_hash_transposition_collision() {
    let hash1 = movetext_final_zobrist_hash("1. Nf3 d5 2. g3").unwrap();
    let hash2 = movetext_final_zobrist_hash("1. g3 d5 2. Nf3").unwrap();
    assert_eq!(hash1, hash2);
}

#[test]
fn test_normalize_complex() {
    let input = "1. e4! {Best by test} (1. d4 d5) e5?? $1 2. Nf3";
    assert_eq!(normalize_movetext(input), "1. e4 e5 2. Nf3");
}

#[test]
fn test_normalize_nag_symbols() {
    assert_eq!(normalize_movetext("1. e4!"), "1. e4");
    assert_eq!(normalize_movetext("1. e4?"), "1. e4");
    assert_eq!(normalize_movetext("1. e4!!"), "1. e4");
    assert_eq!(normalize_movetext("1. e4??"), "1. e4");
    assert_eq!(normalize_movetext("1. e4!?"), "1. e4");
    assert_eq!(normalize_movetext("1. e4?!"), "1. e4");
    assert_eq!(normalize_movetext("1. e4$1"), "1. e4");
    assert_eq!(normalize_movetext("1. e4$10"), "1. e4");
}

#[test]
fn test_normalize_empty() {
    assert_eq!(normalize_movetext(""), "");
}

#[test]
fn test_normalize_with_different_spacing() {
    assert_eq!(
        normalize_movetext("1. e4 e5"),
        normalize_movetext("1.e4 e5")
    );
    assert_eq!(
        normalize_movetext("1. e4 e5"),
        normalize_movetext("1.  e4  e5")
    );
}

// Tests from SQL test files

#[test]
fn test_normalize_annotation_at_start() {
    let input = "{ opening comment } 1. e4 e5";
    assert_eq!(normalize_movetext(input), "1. e4 e5");
}

#[test]
fn test_normalize_annotation_at_end() {
    let input = "1. e4 e5 { game ends }";
    assert_eq!(normalize_movetext(input), "1. e4 e5");
}

#[test]
fn test_normalize_move_structure_preservation() {
    let input = "1. e4 { pawn } e5 { pawn } 2. Nf3+ { check } Nc6";
    assert_eq!(normalize_movetext(input), "1. e4 e5 2. Nf3+ Nc6");
}

#[test]
fn test_normalize_result_markers_preserved() {
    let input = "1. e4 e5 2. Qh5 Nc6 3. Qxf7# { checkmate } 1-0";
    assert_eq!(
        normalize_movetext(input),
        "1. e4 e5 2. Qh5 Nc6 3. Qxf7# 1-0"
    );
}

#[test]
fn test_normalize_lichess_style_annotations() {
    let input = "1. d4 { [%eval 0.25] [%clk 1:30:43] } Nf6 { [%eval 0.22] [%clk 1:30:42] }";
    let result = normalize_movetext(input);
    assert!(!result.contains('{'));
    assert_eq!(result, "1. d4 Nf6");
}

#[test]
fn test_normalize_variations_removed() {
    let input = "1. e4 (1. d4) e5";
    assert_eq!(normalize_movetext(input), "1. e4 e5");
}

#[test]
fn test_normalize_nag_symbols_removed() {
    let input = "1. e4! e5?";
    assert_eq!(normalize_movetext(input), "1. e4 e5");
}

#[test]
fn test_normalize_numeric_nags_removed() {
    let input = "1. e4$1 e5$2";
    assert_eq!(normalize_movetext(input), "1. e4 e5");
}

#[test]
fn test_normalize_complex_all_features() {
    let input = "1. e4! {Best by test} (1. d4 d5) e5?? $1 2. Nf3";
    assert_eq!(normalize_movetext(input), "1. e4 e5 2. Nf3");
}

#[test]
fn test_normalize_complex_annotation_with_multiple_levels() {
    let input = "1. d4 { [%eval 0.25] } d5 { [%clk 1:30:00] } 2. c4 { best move } e6";
    assert_eq!(normalize_movetext(input), "1. d4 d5 2. c4 e6");
}

#[test]
fn test_normalize_lichess_style_no_annotations() {
    let input = "1. d4 { [%eval 0.25] [%clk 1:30:43] } Nf6 { [%eval 0.22] [%clk 1:30:42] }";
    assert!(normalize_movetext(input).contains("d4"));
    assert!(normalize_movetext(input).contains("Nf6"));
    assert!(!normalize_movetext(input).contains('{'));
}

// Additional edge case tests

#[test]
fn test_normalize_deeply_nested_variations() {
    let input = "1. e4 ((1. d4 (1. c4)) e5";
    let result = normalize_movetext(input);
    // We only keep mainline; malformed/unbalanced variations may cause the
    // remainder of the string to be skipped by the PGN parser.
    assert_eq!(result, "1. e4");
}

#[test]
fn test_normalize_parse_failure_returns_empty_string() {
    assert_eq!(normalize_movetext("this is not movetext"), "");
}

#[test]
fn test_normalize_mixed_annotations_and_variations() {
    let input = "1. e4 {comment} (1. d4 {alternative}) e5";
    assert_eq!(normalize_movetext(input), "1. e4 e5");
}

#[test]
fn test_normalize_empty_with_whitespace() {
    assert_eq!(normalize_movetext("   "), "");
    assert_eq!(normalize_movetext("\t\n"), "");
    assert_eq!(normalize_movetext(""), "");
}

#[test]
fn test_normalize_only_annotations() {
    assert_eq!(normalize_movetext("{comment}"), "");
    assert_eq!(normalize_movetext("{comment} {another}"), "");
    assert_eq!(normalize_movetext("(variation)"), "");
}

#[test]
fn test_normalize_only_move_numbers() {
    assert_eq!(normalize_movetext("1."), "");
    assert_eq!(normalize_movetext("1. 2. 3."), "");
    assert_eq!(normalize_movetext("1... 2..."), "");
}

#[test]
fn test_normalize_castling_with_symbols() {
    assert_eq!(normalize_movetext("1. e4 O-O"), "1. e4 O-O");
    assert_eq!(normalize_movetext("1. e4 O-O+"), "1. e4 O-O+");
    assert_eq!(normalize_movetext("1. e4 O-O-O"), "1. e4 O-O-O");
    assert_eq!(normalize_movetext("1. e4 O-O-O+"), "1. e4 O-O-O+");
}

#[test]
fn test_normalize_complex_move_notation() {
    assert_eq!(
        normalize_movetext("1. e4 e5 2. Nf3+ Nc6 3. Bb5 a6 4. Ba4 Nf6"),
        "1. e4 e5 2. Nf3+ Nc6 3. Bb5 a6 4. Ba4 Nf6"
    );
}

#[test]
fn test_normalize_with_all_nag_variants() {
    let input = "1. e4!! e5?? Nf3!? Nc6?! $1 $2";
    assert_eq!(normalize_movetext(input), "1. e4 e5 2. Nf3 Nc6");
}

#[test]
fn hash_of_text_that_is_not_movetext_is_null() {
    assert_eq!(movetext_final_zobrist_hash("this is not movetext"), None);
    assert_eq!(movetext_final_zobrist_hash("   "), None);
    assert_eq!(movetext_final_zobrist_hash("1. e4 { unterminated comment"), None);
    assert!(movetext_final_zobrist_hash("1. e4").is_some());
    assert_eq!(movetext_final_zobrist_hash("1-0"), Some(0x463b96181691fc9c));
}

#[test]
fn zobrist_tracker_finish_needs_a_move_or_result() {
    let mut t = ZobristTracker::new();
    assert_eq!(t.finish("junk", ReadOutcome::Game), None);
    t.outcome();
    assert_eq!(t.finish("junk", ReadOutcome::Game), Some(0x463b96181691fc9c));
    assert_eq!(t.finish("junk", ReadOutcome::Failed), None);
    assert_eq!(t.finish(" ", ReadOutcome::Game), None);
    t.begin_game();
    assert!(!t.seen);
}
