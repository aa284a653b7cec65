//! Movetext analysis: mainline move lists, subsumption of one game's moves by
//! another's, FEN to EPD, and the per-game state behind the move scalars.
use vstd::prelude::*;
use crate::text::{self, append_chars, append_str, chars_eq, chars_eq_str, string_of};

verus! {

// ---------------------------------------------------------------------------
// Tokens of clean movetext
// ---------------------------------------------------------------------------

/// Characters that make movetext need the full parser: comments,
/// variations, NAGs and annotation glyphs.
pub open spec fn is_uncertain_syntax_char(c: char) -> bool {
    c == '{' || c == '}' || c == '(' || c == ')' || c == '$' || c == '!' || c == '?' || c == ';'
}

pub fn is_uncertain_syntax_char_exec(c: char) -> (r: bool)
    ensures
        r == is_uncertain_syntax_char(c),
{
    c == '{' || c == '}' || c == '(' || c == ')' || c == '$' || c == '!' || c == '?' || c == ';'
}

/// `12.` or `12...`: digits, then one dot or three.
pub open spec fn is_move_number_token(t: Seq<char>) -> bool {
    match text::find_char(t, '.') {
        Some(i) => i > 0 && (forall|j: int| 0 <= j < i ==> text::is_digit(#[trigger] t[j])) && (
        t.skip(i) == "."@ || t.skip(i) == "..."@),
        None => false,
    }
}

pub fn is_move_number_token_exec(t: &[char]) -> (r: bool)
    ensures
        r == is_move_number_token(t@),
{
    let i = match text::find_char_exec(t, '.') {
        Some(i) => i,
        None => return false,
    };
    proof {
        text::lemma_find_char(t@, '.');
    }
    if i == 0 {
        return false;
    }
    let mut j: usize = 0;
    while j < i
        invariant
            j <= i,
            i < t@.len(),
            text::find_char(t@, '.') == Some(i as int),
            forall|k: int| 0 <= k < j ==> text::is_digit(#[trigger] t@[k]),
        decreases i - j,
    {
        if !text::is_digit_exec(t[j]) {
            assert(!text::is_digit(t@[j as int]));
            return false;
        }
        j += 1;
    }
    let dots = text::copy_range(t, i, t.len());
    assert(dots@ =~= t@.skip(i as int));
    chars_eq_str(dots.as_slice(), ".") || chars_eq_str(dots.as_slice(), "...")
}

/// A game result: `1-0`, `0-1`, `1/2-1/2` or `*`.
pub open spec fn is_result_marker(t: Seq<char>) -> bool {
    t == "1-0"@ || t == "0-1"@ || t == "1/2-1/2"@ || t == "*"@
}

pub fn is_result_marker_exec(t: &[char]) -> (r: bool)
    ensures
        r == is_result_marker(t@),
{
    chars_eq_str(t, "1-0") || chars_eq_str(t, "0-1") || chars_eq_str(t, "1/2-1/2") || chars_eq_str(
        t,
        "*",
    )
}

pub open spec fn is_castling_token(t: Seq<char>) -> bool {
    t == "O-O"@ || t == "O-O+"@ || t == "O-O#"@ || t == "O-O-O"@ || t == "O-O-O+"@ || t
        == "O-O-O#"@
}

pub open spec fn is_san_char(c: char) -> bool {
    text::is_ascii_alnum(c) || c == 'x' || c == '+' || c == '#' || c == '=' || c == '-'
}

pub open spec fn is_san_start(c: char) -> bool {
    c == 'K' || c == 'Q' || c == 'R' || c == 'B' || c == 'N' || ('a' <= c && c <= 'h')
}

/// A token shaped like a SAN move: ASCII without dots, and either castling
/// or a piece letter or file followed by move characters.
pub open spec fn looks_like_san_token(t: Seq<char>) -> bool {
    if t.len() == 0 || !(forall|i: int| 0 <= i < t.len() ==> text::is_ascii(#[trigger] t[i]))
        || t.contains('.') {
        false
    } else if is_castling_token(t) {
        true
    } else {
        is_san_start(t[0]) && forall|i: int| 0 <= i < t.len() ==> is_san_char(#[trigger] t[i])
    }
}

pub fn looks_like_san_token_exec(t: &[char]) -> (r: bool)
    ensures
        r == looks_like_san_token(t@),
{
    if t.len() == 0 || text::contains_char(t, '.') {
        return false;
    }
    let mut i: usize = 0;
    while i < t.len()
        invariant
            i <= t@.len(),
            forall|k: int| 0 <= k < i ==> text::is_ascii(#[trigger] t@[k]),
        decreases t.len() - i,
    {
        if !(t[i] <= '\u{7f}') {
            assert(!text::is_ascii(t@[i as int]));
            return false;
        }
        i += 1;
    }
    if chars_eq_str(t, "O-O") || chars_eq_str(t, "O-O+") || chars_eq_str(t, "O-O#")
        || chars_eq_str(t, "O-O-O") || chars_eq_str(t, "O-O-O+") || chars_eq_str(t, "O-O-O#") {
        return true;
    }
    let c = t[0];
    assert(!is_castling_token(t@));
    if !(c == 'K' || c == 'Q' || c == 'R' || c == 'B' || c == 'N' || ('a' <= c && c <= 'h')) {
        return false;
    }
    let mut k: usize = 0;
    while k < t.len()
        invariant
            k <= t@.len(),
            t@.len() > 0,
            forall|m: int| 0 <= m < t@.len() ==> text::is_ascii(#[trigger] t@[m]),
            !t@.contains('.'),
            !is_castling_token(t@),
            is_san_start(t@[0]),
            forall|m: int| 0 <= m < k ==> is_san_char(#[trigger] t@[m]),
        decreases t.len() - k,
    {
        let d = t[k];
        if !(('a' <= d && d <= 'z') || ('A' <= d && d <= 'Z') || ('0' <= d && d <= '9') || d
            == 'x' || d == '+' || d == '#' || d == '=' || d == '-') {
            assert(!is_san_char(t@[k as int]));
            return false;
        }
        k += 1;
    }
    true
}

/// The token walk of clean movetext: move numbers skipped, at most one
/// result marker and only at the end, every other token SAN-shaped; clean
/// when a SAN token was seen.
pub open spec fn clean_tokens(ws: Seq<Seq<char>>, saw_result: bool, saw_san: bool) -> bool
    decreases ws.len(),
{
    if ws.len() == 0 {
        saw_san
    } else if saw_result {
        false
    } else if is_move_number_token(ws[0]) {
        clean_tokens(ws.drop_first(), saw_result, saw_san)
    } else if is_result_marker(ws[0]) {
        clean_tokens(ws.drop_first(), true, saw_san)
    } else if !looks_like_san_token(ws[0]) {
        false
    } else {
        clean_tokens(ws.drop_first(), saw_result, true)
    }
}

/// Movetext the fast path can read token by token: blank, or free of
/// comments, variations and NAGs with a clean token walk.
pub open spec fn is_clean_mainline(m: Seq<char>) -> bool {
    let t = text::trim(m);
    if t.len() == 0 {
        true
    } else if exists|i: int| 0 <= i < t.len() && is_uncertain_syntax_char(#[trigger] t[i]) {
        false
    } else {
        clean_tokens(text::words(t), false, false)
    }
}

pub fn is_clean_mainline_movetext(movetext: &str) -> (r: bool)
    ensures
        r == is_clean_mainline(movetext@),
{
    let chars = text::chars_of(movetext);
    let t = text::trim_chars(chars.as_slice());
    if t.len() == 0 {
        return true;
    }
    let mut i: usize = 0;
    while i < t.len()
        invariant
            i <= t@.len(),
            t@ == text::trim(movetext@),
            forall|k: int| 0 <= k < i ==> !is_uncertain_syntax_char(#[trigger] t@[k]),
        decreases t.len() - i,
    {
        if is_uncertain_syntax_char_exec(t[i]) {
            assert(is_uncertain_syntax_char(t@[i as int]));
            return false;
        }
        i += 1;
    }
    let ws = text::words_exec(t.as_slice());
    let ghost all = text::views(ws@);
    let mut saw_result = false;
    let mut saw_san = false;
    let mut j: usize = 0;
    assert(all.skip(0) =~= all);
    while j < ws.len()
        invariant
            j <= ws@.len(),
            all == text::views(ws@),
            all == text::words(t@),
            t@ == text::trim(movetext@),
            t@.len() > 0,
            forall|k: int| 0 <= k < t@.len() ==> !is_uncertain_syntax_char(#[trigger] t@[k]),
            clean_tokens(all, false, false) == clean_tokens(all.skip(j as int), saw_result, saw_san),
        decreases ws.len() - j,
    {
        assert(all.skip(j as int)[0] == ws@[j as int]@);
        assert(all.skip(j as int).drop_first() =~= all.skip(j + 1));
        if saw_result {
            return false;
        }
        let tok = ws[j].as_slice();
        if is_move_number_token_exec(tok) {
        } else if is_result_marker_exec(tok) {
            saw_result = true;
        } else if !looks_like_san_token_exec(tok) {
            return false;
        } else {
            saw_san = true;
        }
        j += 1;
    }
    assert(all.skip(j as int).len() == 0);
    saw_san
}

// ---------------------------------------------------------------------------
// Prefix comparison
// ---------------------------------------------------------------------------

/// Whether the short move list is a prefix of the long one.
pub open spec fn is_prefix(short: Seq<Seq<char>>, long: Seq<Seq<char>>) -> bool {
    short.len() <= long.len() && long.take(short.len() as int) == short
}

pub fn string_eq(a: &String, b: &String) -> (r: bool)
    ensures
        r == (a@ == b@),
{
    let x = text::chars_of(a.as_str());
    let y = text::chars_of(b.as_str());
    chars_eq(x.as_slice(), y.as_slice())
}

pub fn is_prefix_subset(short_moves: &Vec<String>, long_moves: &Vec<String>) -> (r: bool)
    ensures
        r == is_prefix(crate::chess::timecontrol::string_views(short_moves@),
            crate::chess::timecontrol::string_views(long_moves@)),
{
    let ghost s = crate::chess::timecontrol::string_views(short_moves@);
    let ghost l = crate::chess::timecontrol::string_views(long_moves@);
    if short_moves.len() > long_moves.len() {
        return false;
    }
    let mut i: usize = 0;
    while i < short_moves.len()
        invariant
            i <= short_moves@.len() <= long_moves@.len(),
            s == crate::chess::timecontrol::string_views(short_moves@),
            l == crate::chess::timecontrol::string_views(long_moves@),
            forall|k: int| 0 <= k < i ==> #[trigger] s[k] == l[k],
        decreases short_moves.len() - i,
    {
        if !string_eq(&short_moves[i], &long_moves[i]) {
            assert(s[i as int] != l.take(s.len() as int)[i as int]);
            return false;
        }
        i += 1;
    }
    assert(l.take(s.len() as int) =~= s);
    true
}

// ---------------------------------------------------------------------------
// Mainline moves of clean movetext
// ---------------------------------------------------------------------------

/// The FEN of the standard starting position.
pub open spec fn start_fen() -> Seq<char> {
    "rnbqkbnr/pppppppp/8/8/8/8/PPPPPPPP/RNBQKBNR w KQkq - 0 1"@
}

/// The Zobrist hash (64 bits) of the standard starting position, as
/// `shakmaty`'s documentation of its `zobrist` module gives it.
pub const START_ZOBRIST: u64 = 0x463b_9618_1691_fc9c;

/// A move played on a position, both as plain text: `fen` read as a
/// standard chess position (`Fen::from_str`, `Fen::into_position` with
/// standard castling), `san` read as a move (`SanPlus::from_str`) and
/// found among the position's legal moves (`San::to_move`), then played
/// (`Position::play_unchecked`). The move's display text (`SanPlus`'s
/// `Display`) and the FEN of the position reached (`Fen::from_position`,
/// en passant always shown); `None` when a text does not read or the move
/// is not legal there.
pub uninterp spec fn fen_play(fen: Seq<char>, san: Seq<char>) -> Option<(Seq<char>, Seq<char>)>;

/// The Zobrist hash (64 bits, `ZobristHash::zobrist_hash` with legal en
/// passant only) of the position that `fen` reads as; `None` when it does
/// not read as a standard chess position.
pub uninterp spec fn fen_zobrist(fen: Seq<char>) -> Option<u64>;

/// Calls `Chess::default`, then `Fen::from_position` (en passant always
/// shown) and `Fen::to_string`: the starting position's FEN, which
/// `shakmaty`'s documentation writes as `start_fen`; read back, its hash is
/// `START_ZOBRIST`, as the `zobrist` module documents.
#[verifier::external_body]
fn start_position_fen() -> (r: String)
    ensures
        r@ == start_fen(),
        fen_zobrist(r@) == Some(START_ZOBRIST),
{
    let pos = shakmaty::Chess::default();
    shakmaty::fen::Fen::from_position(&pos, shakmaty::EnPassantMode::Always).to_string()
}

/// Reads the position and the move with `shakmaty` and plays the move: the
/// result is `fen_play` of the two texts, unproved.
#[verifier::external_body]
fn play_on_fen(fen: &[char], san: &[char]) -> (r: Option<(String, String)>)
    ensures
        match r {
            Some((d, next)) => fen_play(fen@, san@) == Some((d@, next@)),
            None => fen_play(fen@, san@) is None,
        },
{
    let fen_text: String = fen.iter().collect();
    let san_text: String = san.iter().collect();
    let setup: shakmaty::fen::Fen = fen_text.parse().ok()?;
    let mut pos: shakmaty::Chess = setup.into_position(shakmaty::CastlingMode::Standard).ok()?;
    let san_plus: shakmaty::san::SanPlus = san_text.parse().ok()?;
    let m = san_plus.san.to_move(&pos).ok()?;
    shakmaty::Position::play_unchecked(&mut pos, m);
    let next = shakmaty::fen::Fen::from_position(&pos, shakmaty::EnPassantMode::Always);
    Some((san_plus.to_string(), next.to_string()))
}

/// Reads the position with `shakmaty` and hashes it: the result is
/// `fen_zobrist` of the text, unproved.
#[verifier::external_body]
fn zobrist_of_fen(fen: &[char]) -> (r: Option<u64>)
    ensures
        r == fen_zobrist(fen@),
{
    let fen_text: String = fen.iter().collect();
    let setup: shakmaty::fen::Fen = fen_text.parse().ok()?;
    let pos: shakmaty::Chess = setup.into_position(shakmaty::CastlingMode::Standard).ok()?;
    let h: shakmaty::zobrist::Zobrist64 = shakmaty::zobrist::ZobristHash::zobrist_hash(
        &pos,
        shakmaty::EnPassantMode::Legal,
    );
    Some(h.0)
}

/// The SAN texts played in turn from the position `fen`: their display
/// texts, or `None` when one does not read or is not legal where it is
/// played.
pub open spec fn replay(fen: Seq<char>, ts: Seq<Seq<char>>) -> Option<Seq<Seq<char>>>
    decreases ts.len(),
{
    if ts.len() == 0 {
        Some(Seq::empty())
    } else {
        match fen_play(fen, ts[0]) {
            Some((d, next)) => match replay(next, ts.drop_first()) {
                Some(rest) => Some(seq![d] + rest),
                None => None,
            },
            None => None,
        }
    }
}

/// Plays the SAN tokens in turn from the starting position: their display
/// texts, or `None` when one does not read or is not legal where it is
/// played.
fn replay_sans(tokens: &Vec<Vec<char>>) -> (r: Option<Vec<String>>)
    ensures
        match r {
            Some(v) => replay(start_fen(), text::views(tokens@)) == Some(
                crate::chess::timecontrol::string_views(v@),
            ),
            None => replay(start_fen(), text::views(tokens@)) is None,
        },
{
    let ghost ts = text::views(tokens@);
    let mut fen: Vec<char> = text::chars_of(start_position_fen().as_str());
    let mut out: Vec<String> = Vec::new();
    let mut i: usize = 0;
    assert(ts.skip(0) =~= ts);
    assert(crate::chess::timecontrol::string_views(out@) + Seq::<Seq<char>>::empty() =~= crate::chess::timecontrol::string_views(out@));
    while i < tokens.len()
        invariant
            i <= tokens@.len(),
            ts == text::views(tokens@),
            replay(start_fen(), ts) == match replay(fen@, ts.skip(i as int)) {
                Some(rest) => Some(crate::chess::timecontrol::string_views(out@) + rest),
                None => None::<Seq<Seq<char>>>,
            },
        decreases tokens.len() - i,
    {
        assert(ts.skip(i as int)[0] == tokens@[i as int]@);
        assert(ts.skip(i as int).drop_first() =~= ts.skip(i + 1));
        match play_on_fen(fen.as_slice(), tokens[i].as_slice()) {
            Some((display, next)) => {
                let ghost before = crate::chess::timecontrol::string_views(out@);
                out.push(display);
                fen = text::chars_of(next.as_str());
                proof {
                    assert(crate::chess::timecontrol::string_views(out@) =~= before.push(display@));
                    match replay(fen@, ts.skip(i + 1)) {
                        Some(rest) => {
                            assert(before + (seq![display@] + rest) =~= crate::chess::timecontrol::string_views(out@) + rest);
                        },
                        None => {},
                    }
                }
            },
            None => return None,
        }
        i += 1;
    }
    assert(ts.skip(i as int).len() == 0);
    Some(out)
}

/// The SAN tokens of a token walk (move numbers skipped, a result marker
/// only at the end); `None` when the walk is not clean.
pub open spec fn san_tokens(ws: Seq<Seq<char>>, saw_result: bool) -> Option<Seq<Seq<char>>>
    decreases ws.len(),
{
    if ws.len() == 0 {
        Some(Seq::empty())
    } else if saw_result {
        None
    } else if is_move_number_token(ws[0]) {
        san_tokens(ws.drop_first(), false)
    } else if is_result_marker(ws[0]) {
        san_tokens(ws.drop_first(), true)
    } else if !looks_like_san_token(ws[0]) {
        None
    } else {
        match san_tokens(ws.drop_first(), false) {
            Some(rest) => Some(seq![ws[0]] + rest),
            None => None,
        }
    }
}

/// The mainline of clean movetext as display texts: empty for blank
/// movetext, otherwise its SAN tokens played in turn from the starting
/// position; `None` when the walk is not clean, or a move does not read or
/// is not legal where it is played.
pub open spec fn clean_mainline_sans(m: Seq<char>) -> Option<Seq<Seq<char>>> {
    if text::trim(m).len() == 0 {
        Some(Seq::empty())
    } else {
        match san_tokens(text::words(m), false) {
            Some(ts) => replay(start_fen(), ts),
            None => None,
        }
    }
}

pub open spec fn opt_strings_view(o: Option<Vec<String>>) -> Option<Seq<Seq<char>>> {
    match o {
        Some(v) => Some(crate::chess::timecontrol::string_views(v@)),
        None => None,
    }
}

/// The mainline of clean movetext, replayed from the starting position.
pub fn extract_clean_mainline_sans(movetext: &str) -> (r: Option<Vec<String>>)
    ensures
        opt_strings_view(r) == clean_mainline_sans(movetext@),
{
    let chars = text::chars_of(movetext);
    if text::is_blank(chars.as_slice()) {
        let v: Vec<String> = Vec::new();
        assert(crate::chess::timecontrol::string_views(v@) =~= Seq::<Seq<char>>::empty());
        return Some(v);
    }
    let ws = text::words_exec(chars.as_slice());
    let ghost all = text::views(ws@);
    let mut saw_result = false;
    let mut toks: Vec<Vec<char>> = Vec::new();
    let mut j: usize = 0;
    assert(all.skip(0) =~= all);
    assert(text::views(toks@) =~= Seq::<Seq<char>>::empty());
    while j < ws.len()
        invariant
            j <= ws@.len(),
            all == text::views(ws@),
            all == text::words(movetext@),
            text::trim(movetext@).len() > 0,
            san_tokens(all, false) == match san_tokens(all.skip(j as int), saw_result) {
                Some(rest) => Some(text::views(toks@) + rest),
                None => None::<Seq<Seq<char>>>,
            },
        decreases ws.len() - j,
    {
        assert(all.skip(j as int)[0] == ws@[j as int]@);
        assert(all.skip(j as int).drop_first() =~= all.skip(j + 1));
        if saw_result {
            return None;
        }
        let tok = ws[j].as_slice();
        if is_move_number_token_exec(tok) {
        } else if is_result_marker_exec(tok) {
            saw_result = true;
        } else if !looks_like_san_token_exec(tok) {
            return None;
        } else {
            let ghost before = text::views(toks@);
            toks.push(ws[j].clone());
            proof {
                assert(text::views(toks@) =~= before.push(ws@[j as int]@));
                match san_tokens(all.skip(j + 1), false) {
                    Some(rest) => {
                        assert(before + (seq![ws@[j as int]@] + rest) =~= text::views(toks@)
                            + rest);
                    },
                    None => {},
                }
            }
        }
        j += 1;
    }
    assert(all.skip(j as int).len() == 0);
    assert(text::views(toks@) + Seq::<Seq<char>>::empty() =~= text::views(toks@));
    replay_sans(&toks)
}

/// The fast decision, for clean movetext only: whether the short mainline
/// is a prefix of the long one; `None` when either is not clean or a move
/// does not read or is not legal where it is played.
pub open spec fn fast_subset(short: Seq<char>, long: Seq<char>) -> Option<bool> {
    if !is_clean_mainline(short) || !is_clean_mainline(long) {
        None
    } else {
        match (clean_mainline_sans(short), clean_mainline_sans(long)) {
            (Some(a), Some(b)) => Some(is_prefix(a, b)),
            _ => None,
        }
    }
}

pub fn check_moves_subset_fast(short_movetext: &str, long_movetext: &str) -> (r: Option<bool>)
    ensures
        r == fast_subset(short_movetext@, long_movetext@),
{
    if !is_clean_mainline_movetext(short_movetext) || !is_clean_mainline_movetext(long_movetext) {
        return None;
    }
    let short_moves = match extract_clean_mainline_sans(short_movetext) {
        Some(v) => v,
        None => return None,
    };
    let long_moves = match extract_clean_mainline_sans(long_movetext) {
        Some(v) => v,
        None => return None,
    };
    Some(is_prefix_subset(&short_moves, &long_moves))
}

// ---------------------------------------------------------------------------
// Mainline moves read by the PGN parser
// ---------------------------------------------------------------------------

/// The mainline of movetext as read by the PGN parser: the SAN texts, the
/// result marker, and whether reading failed.
#[derive(Debug, Clone)]
pub struct ParsedMovetext {
    pub sans: Vec<String>,
    pub outcome: Option<String>,
    pub parse_error: bool,
}

pub struct MovetextModel {
    pub sans: Seq<Seq<char>>,
    pub outcome: Option<Seq<char>>,
    pub parse_error: bool,
}

impl View for ParsedMovetext {
    type V = MovetextModel;

    open spec fn view(&self) -> MovetextModel {
        MovetextModel {
            sans: crate::chess::timecontrol::string_views(self.sans@),
            outcome: crate::chess::timecontrol::opt_string_view(self.outcome),
            parse_error: self.parse_error,
        }
    }
}

/// How reading one game ended.
#[derive(Debug, Clone, Copy, PartialEq, Eq)]
pub enum ReadOutcome {
    /// A game was read to its end.
    Game,
    /// The input held no game.
    NoGame,
    /// The reader failed.
    Failed,
}

impl ParsedMovetext {
    /// The mainline of blank movetext, which is not read at all.
    pub fn blank() -> (r: Self)
        ensures
            r@.sans.len() == 0,
            r@.outcome is None,
            !r@.parse_error,
    {
        ParsedMovetext { sans: Vec::new(), outcome: None, parse_error: false }
    }
}

/// The mainline seen so far while reading one game: its SAN texts and its
/// result marker; variations, comments and NAGs are not reported to it.
pub struct MainlineCollector {
    pub sans: Vec<String>,
    pub outcome: Option<String>,
}

impl MainlineCollector {
    pub fn new() -> (r: Self)
        ensures
            r.sans@.len() == 0,
            r.outcome is None,
    {
        MainlineCollector { sans: Vec::new(), outcome: None }
    }

    /// A new game starts: everything seen is forgotten.
    pub fn begin_game(&mut self)
        ensures
            final(self).sans@.len() == 0,
            final(self).outcome is None,
    {
        self.sans = Vec::new();
        self.outcome = None;
    }

    /// A mainline move, in its SAN text.
    pub fn san(&mut self, san: String)
        ensures
            final(self).sans@ == old(self).sans@.push(san),
            final(self).outcome == old(self).outcome,
    {
        self.sans.push(san);
    }

    /// The game's result marker.
    pub fn outcome(&mut self, outcome: String)
        ensures
            final(self).sans@ == old(self).sans@,
            final(self).outcome == Some(outcome),
    {
        self.outcome = Some(outcome);
    }

    /// What was read: reading failed unless a game was read to its end.
    pub fn finish(self, read: ReadOutcome) -> (r: ParsedMovetext)
        ensures
            r.sans@ == self.sans@,
            r.outcome == self.outcome,
            r.parse_error == (read != ReadOutcome::Game),
    {
        let parse_error = match read {
            ReadOutcome::Game => false,
            _ => true,
        };
        ParsedMovetext { sans: self.sans, outcome: self.outcome, parse_error }
    }
}

/// Whether the parser's reading of non-blank movetext failed: an error, or
/// neither a move nor a result.
pub open spec fn parse_failed(m: Seq<char>, p: MovetextModel) -> bool {
    p.parse_error || (text::trim(m).len() > 0 && p.sans.len() == 0 && p.outcome is None)
}

/// The decision from the parser's readings: false when either reading
/// failed, otherwise whether the short mainline is a prefix of the long.
pub open spec fn parser_subset(
    short: Seq<char>,
    long: Seq<char>,
    sp: MovetextModel,
    lp: MovetextModel,
) -> bool {
    if parse_failed(short, sp) {
        false
    } else if parse_failed(long, lp) {
        false
    } else {
        is_prefix(sp.sans, lp.sans)
    }
}

pub fn check_moves_subset_with_parser(
    short_movetext: &str,
    long_movetext: &str,
    short_parsed: &ParsedMovetext,
    long_parsed: &ParsedMovetext,
) -> (r: bool)
    ensures
        r == parser_subset(short_movetext@, long_movetext@, short_parsed@, long_parsed@),
{
    let s = text::chars_of(short_movetext);
    let l = text::chars_of(long_movetext);
    let short_non_empty = !text::is_blank(s.as_slice());
    let long_non_empty = !text::is_blank(l.as_slice());
    let short_parse_failed = short_parsed.parse_error || (short_non_empty
        && short_parsed.sans.len() == 0 && short_parsed.outcome.is_none());
    let long_parse_failed = long_parsed.parse_error || (long_non_empty && long_parsed.sans.len()
        == 0 && long_parsed.outcome.is_none());
    if short_parse_failed {
        return false;
    }
    if long_parse_failed {
        return false;
    }
    is_prefix_subset(&short_parsed.sans, &long_parsed.sans)
}

/// Whether the short movetext's mainline is a prefix of the long one's:
/// decided on the clean fast path when it can be, otherwise from the PGN
/// parser's readings of both (`parse`).
pub fn check_moves_subset<F: Fn(&str) -> ParsedMovetext>(
    short_movetext: &str,
    long_movetext: &str,
    parse: F,
) -> (r: bool)
    requires
        forall|m: &str| #[trigger] call_requires(parse, (m,)),
    ensures
        fast_subset(short_movetext@, long_movetext@) matches Some(b) ==> r == b,
        fast_subset(short_movetext@, long_movetext@) is None ==> exists|
            sp: ParsedMovetext,
            lp: ParsedMovetext,
        |
            call_ensures(parse, (short_movetext,), sp) && call_ensures(parse, (long_movetext,), lp)
                && r == parser_subset(short_movetext@, long_movetext@, sp@, lp@),
{
    match check_moves_subset_fast(short_movetext, long_movetext) {
        Some(b) => b,
        None => {
            let sp = parse(short_movetext);
            let lp = parse(long_movetext);
            check_moves_subset_with_parser(short_movetext, long_movetext, &sp, &lp)
        },
    }
}

// ---------------------------------------------------------------------------
// FEN to EPD
// ---------------------------------------------------------------------------

/// The first four fields of a FEN (board, side, castling, en passant),
/// joined by single spaces; `None` with fewer than four fields.
pub open spec fn fen_fields_to_epd(fen: Seq<char>) -> Option<Seq<char>> {
    let ws = text::words(fen);
    if ws.len() >= 4 {
        Some(ws[0] + seq![' '] + ws[1] + seq![' '] + ws[2] + seq![' '] + ws[3])
    } else {
        None
    }
}

pub fn fen_str_to_epd(fen: &[char]) -> (r: Option<Vec<char>>)
    ensures
        crate::pattern::opt_chars_view(r) == fen_fields_to_epd(fen@),
{
    let ws = text::words_exec(fen);
    if ws.len() < 4 {
        return None;
    }
    let mut out: Vec<char> = Vec::new();
    append_chars(&mut out, ws[0].as_slice());
    out.push(' ');
    append_chars(&mut out, ws[1].as_slice());
    out.push(' ');
    append_chars(&mut out, ws[2].as_slice());
    out.push(' ');
    append_chars(&mut out, ws[3].as_slice());
    proof {
        let v = text::views(ws@);
        assert(v[0] == ws@[0]@ && v[1] == ws@[1]@ && v[2] == ws@[2]@ && v[3] == ws@[3]@);
        assert(out@ =~= v[0] + seq![' '] + v[1] + seq![' '] + v[2] + seq![' '] + v[3]);
    }
    Some(out)
}

/// A FEN read by `shakmaty` (`Fen::from_str`) and written back
/// (`Fen::to_string`); `None` when it does not read.
pub uninterp spec fn fen_canonical(fen: Seq<char>) -> Option<Seq<char>>;

/// Reads a FEN with `shakmaty` and writes it back; the result is
/// `fen_canonical` of the text, unproved.
#[verifier::external_body]
fn canonical_fen(fen: &[char]) -> (r: Option<Vec<char>>)
    ensures
        crate::pattern::opt_chars_view(r) == fen_canonical(fen@),
{
    let text: String = fen.iter().collect();
    let parsed: shakmaty::fen::Fen = text.parse().ok()?;
    Some(parsed.to_string().chars().collect())
}

/// The EPD of a FEN: the FEN trimmed, read and written back by `shakmaty`,
/// then cut to its first four fields; `None` when blank or unreadable.
pub open spec fn fen_epd(fen: Seq<char>) -> Option<Seq<char>> {
    let t = text::trim(fen);
    if t.len() == 0 {
        None
    } else {
        match fen_canonical(t) {
            Some(c) => fen_fields_to_epd(c),
            None => None,
        }
    }
}

pub fn fen_to_epd(fen: &str) -> (r: Option<String>)
    ensures
        crate::chess::timecontrol::opt_string_view(r) == fen_epd(fen@),
{
    let chars = text::chars_of(fen);
    let t = text::trim_chars(chars.as_slice());
    if t.len() == 0 {
        return None;
    }
    let c = match canonical_fen(t.as_slice()) {
        Some(c) => c,
        None => return None,
    };
    match fen_str_to_epd(c.as_slice()) {
        Some(e) => Some(string_of(e.as_slice())),
        None => None,
    }
}

// ---------------------------------------------------------------------------
// Per-game state for the movetext scalars
// ---------------------------------------------------------------------------

/// Counts the mainline moves of a game.
pub struct PlyCounter {
    pub count: usize,
}

impl PlyCounter {
    pub fn new() -> (r: Self)
        ensures
            r.count == 0,
    {
        PlyCounter { count: 0 }
    }

    pub fn begin_game(&mut self)
        ensures
            final(self).count == 0,
    {
        self.count = 0;
    }

    /// A mainline move.
    pub fn san(&mut self)
        requires
            old(self).count < usize::MAX,
        ensures
            final(self).count == old(self).count + 1,
    {
        self.count = self.count + 1;
    }

    /// The ply count: the moves counted when a game was read to its end,
    /// otherwise 0.
    pub fn finish(&self, read: ReadOutcome) -> (r: i64)
        requires
            self.count <= i64::MAX,
        ensures
            r == if read == ReadOutcome::Game {
                self.count as int
            } else {
                0
            },
    {
        match read {
            ReadOutcome::Game => self.count as i64,
            _ => 0,
        }
    }
}

/// Writes a game's mainline as normalized movetext: `1. e4 e5 2. Nf3`,
/// then the result.
pub struct MovetextSerializer {
    pub output: Vec<char>,
    pub move_count: usize,
    pub outcome: Option<String>,
}

/// The normalized movetext after a move: numbered before White's moves.
pub open spec fn serialized_move(output: Seq<char>, move_count: nat, san: Seq<char>) -> Seq<char> {
    if move_count % 2 == 0 {
        output + (if output.len() > 0 {
            seq![' ']
        } else {
            Seq::empty()
        }) + text::dec(move_count / 2 + 1) + ". "@ + san
    } else {
        output + seq![' '] + san
    }
}

/// The normalized movetext at the end of a game: the result appended.
pub open spec fn serialized_end(output: Seq<char>, outcome: Option<Seq<char>>) -> Seq<char> {
    match outcome {
        Some(o) => output + (if output.len() > 0 {
            seq![' ']
        } else {
            Seq::empty()
        }) + o,
        None => output,
    }
}

impl MovetextSerializer {
    pub fn new() -> (r: Self)
        ensures
            r.output@.len() == 0,
            r.move_count == 0,
            r.outcome is None,
    {
        MovetextSerializer { output: Vec::new(), move_count: 0, outcome: None }
    }

    pub fn begin_game(&mut self)
        ensures
            final(self).output@.len() == 0,
            final(self).move_count == 0,
            final(self).outcome is None,
    {
        self.output = Vec::new();
        self.move_count = 0;
        self.outcome = None;
    }

    pub fn san(&mut self, san: &str)
        requires
            old(self).move_count < usize::MAX,
        ensures
            final(self).output@ == serialized_move(
                old(self).output@,
                old(self).move_count as nat,
                san@,
            ),
            final(self).move_count == old(self).move_count + 1,
            final(self).outcome == old(self).outcome,
    {
        let ghost start = self.output@;
        if self.move_count % 2 == 0 {
            if self.output.len() > 0 {
                self.output.push(' ');
            }
            text::push_decimal(&mut self.output, (self.move_count / 2 + 1) as u64);
            append_str(&mut self.output, ". ");
        } else {
            self.output.push(' ');
        }
        append_str(&mut self.output, san);
        self.move_count = self.move_count + 1;
        assert(self.output@ =~= serialized_move(start, old(self).move_count as nat, san@));
    }

    pub fn outcome(&mut self, outcome: String)
        ensures
            final(self).output == old(self).output,
            final(self).move_count == old(self).move_count,
            final(self).outcome == Some(outcome),
    {
        self.outcome = Some(outcome);
    }

    pub fn end_game(&mut self)
        ensures
            final(self).output@ == serialized_end(
                old(self).output@,
                crate::chess::timecontrol::opt_string_view(old(self).outcome),
            ),
            final(self).outcome is None,
            final(self).move_count == old(self).move_count,
    {
        let ghost start = self.output@;
        match self.outcome.take() {
            Some(o) => {
                if self.output.len() > 0 {
                    self.output.push(' ');
                }
                append_str(&mut self.output, o.as_str());
            },
            None => {},
        }
        assert(self.output@ =~= serialized_end(
            start,
            crate::chess::timecontrol::opt_string_view(old(self).outcome),
        ));
    }

    /// The normalized movetext: what was written when a game was read to
    /// its end, otherwise empty.
    pub fn finish(&self, read: ReadOutcome) -> (r: String)
        ensures
            r@ == if read == ReadOutcome::Game {
                self.output@
            } else {
                Seq::empty()
            },
    {
        match read {
            ReadOutcome::Game => string_of(self.output.as_slice()),
            _ => String::new(),
        }
    }
}

/// One entry of the moves JSON: ply, move, FEN and EPD (the EPD empty when
/// the FEN has fewer than four fields).
pub open spec fn json_entry(ply: nat, mv: Seq<char>, fen: Seq<char>) -> Seq<char> {
    "{\"ply\":"@ + text::dec(ply) + ",\"move\":\""@ + mv + "\",\"fen\":\""@ + fen
        + "\",\"epd\":\""@ + match fen_fields_to_epd(fen) {
        Some(e) => e,
        None => Seq::empty(),
    } + "\"}"@
}

/// Builds the JSON array of a game's mainline positions, move by move, up
/// to an optional ply limit. The position is kept as its FEN.
pub struct MovesJson {
    pub fen: String,
    pub json: Vec<char>,
    pub first: bool,
    pub ply: usize,
    pub max_ply: Option<usize>,
}

/// Whether the moves JSON has reached its ply limit.
pub open spec fn at_limit(max_ply: Option<usize>, ply: usize) -> bool {
    max_ply matches Some(m) && ply >= m
}

impl MovesJson {
    /// The starting position and an empty array.
    pub fn new(max_ply: Option<usize>) -> (r: Self)
        ensures
            r.fen@ == start_fen(),
            r.json@ == seq!['['],
            r.first,
            r.ply == 0,
            r.max_ply == max_ply,
    {
        let mut json: Vec<char> = Vec::new();
        json.push('[');
        MovesJson { fen: start_position_fen(), json, first: true, ply: 0, max_ply }
    }

    /// A new game starts from the starting position with an empty array.
    pub fn begin_game(&mut self)
        ensures
            final(self).fen@ == start_fen(),
            final(self).json@ == seq!['['],
            final(self).first,
            final(self).ply == 0,
            final(self).max_ply == old(self).max_ply,
    {
        self.fen = start_position_fen();
        self.json = Vec::new();
        self.json.push('[');
        self.first = true;
        self.ply = 0;
    }

    /// A mainline move, in its SAN text. Reading stops (`false`, nothing
    /// changed) at the ply limit or at a move that does not read or is not
    /// legal; otherwise the move is played and its entry appended: the
    /// move's display text and the FEN of the position reached.
    pub fn san(&mut self, san: &str) -> (r: bool)
        requires
            old(self).ply < usize::MAX,
        ensures
            r == (!at_limit(old(self).max_ply, old(self).ply) && fen_play(old(self).fen@, san@) is Some),
            !r ==> *final(self) == *old(self),
            r ==> ({
                let (mv, next) = fen_play(old(self).fen@, san@).unwrap();
                &&& final(self).fen@ == next
                &&& final(self).ply == old(self).ply + 1
                &&& !final(self).first
                &&& final(self).max_ply == old(self).max_ply
                &&& final(self).json@ == old(self).json@ + (if old(self).first {
                    Seq::empty()
                } else {
                    seq![',']
                }) + json_entry(final(self).ply as nat, mv, next)
            }),
    {
        match self.max_ply {
            Some(m) => {
                if self.ply >= m {
                    return false;
                }
            },
            None => {},
        }
        let san_chars = text::chars_of(san);
        let fen_chars = text::chars_of(self.fen.as_str());
        let (mv, next) = match play_on_fen(fen_chars.as_slice(), san_chars.as_slice()) {
            Some(p) => p,
            None => return false,
        };
        self.ply = self.ply + 1;
        let ghost start = self.json@;
        if !self.first {
            self.json.push(',');
        }
        let ghost with_sep = self.json@;
        self.first = false;
        let next_chars = text::chars_of(next.as_str());
        let epd = match fen_str_to_epd(next_chars.as_slice()) {
            Some(e) => e,
            None => Vec::new(),
        };
        append_str(&mut self.json, "{\"ply\":");
        text::push_decimal(&mut self.json, self.ply as u64);
        append_str(&mut self.json, ",\"move\":\"");
        append_str(&mut self.json, mv.as_str());
        append_str(&mut self.json, "\",\"fen\":\"");
        append_chars(&mut self.json, next_chars.as_slice());
        append_str(&mut self.json, "\",\"epd\":\"");
        append_chars(&mut self.json, epd.as_slice());
        append_str(&mut self.json, "\"}");
        assert(self.json@ =~= with_sep + json_entry(self.ply as nat, mv@, next@));
        self.fen = next;
        true
    }

    /// The array, closed.
    pub fn finish(&self) -> (r: String)
        ensures
            r@ == self.json@.push(']'),
    {
        let mut out = self.json.clone();
        out.push(']');
        string_of(out.as_slice())
    }
}

/// The ply limit for the moves JSON, or `None` when the answer is the empty
/// array without reading: blank movetext or a limit that is not positive.
/// A limit too large for `usize` means no limit.
pub open spec fn moves_json_limit(movetext: Seq<char>, max_ply: Option<i64>) -> Option<
    Option<usize>,
> {
    if text::trim(movetext).len() == 0 {
        None
    } else {
        match max_ply {
            Some(m) => if m <= 0 {
                None
            } else if m <= usize::MAX {
                Some(Some(m as usize))
            } else {
                Some(None)
            },
            None => Some(None),
        }
    }
}

pub fn moves_json_plan(movetext: &str, max_ply: Option<i64>) -> (r: Option<Option<usize>>)
    ensures
        r == moves_json_limit(movetext@, max_ply),
{
    let chars = text::chars_of(movetext);
    if text::is_blank(chars.as_slice()) {
        return None;
    }
    match max_ply {
        Some(m) => {
            if m <= 0 {
                return None;
            }
            let u: u64 = m as u64;
            if u <= usize::MAX as u64 {
                Some(Some(u as usize))
            } else {
                Some(None)
            }
        },
        None => Some(None),
    }
}

/// The Zobrist hash of the mainline's current position, move by move. The
/// position is kept as its FEN; `seen` records whether the game reported a
/// move or a result marker.
pub struct ZobristTracker {
    pub fen: String,
    pub hash: u64,
    pub seen: bool,
}

impl ZobristTracker {
    /// The starting position and its hash, `START_ZOBRIST`; nothing seen.
    pub fn new() -> (r: Self)
        ensures
            r.fen@ == start_fen(),
            r.hash == START_ZOBRIST,
            fen_zobrist(r.fen@) == Some(r.hash),
            !r.seen,
    {
        let fen = start_position_fen();
        ZobristTracker { fen, hash: START_ZOBRIST, seen: false }
    }

    /// A new game starts from the starting position, whose hash is
    /// `START_ZOBRIST`, with nothing seen.
    pub fn begin_game(&mut self)
        ensures
            final(self).fen@ == start_fen(),
            final(self).hash == START_ZOBRIST,
            fen_zobrist(final(self).fen@) == Some(final(self).hash),
            !final(self).seen,
    {
        self.fen = start_position_fen();
        self.hash = START_ZOBRIST;
        self.seen = false;
    }

    /// A mainline move, in its SAN text; it counts as seen. Reading stops
    /// (`false`, position and hash unchanged) at a move that does not read
    /// or is not legal; otherwise the move is played and the hash is that of
    /// the position reached.
    pub fn san(&mut self, san: &str) -> (r: bool)
        ensures
            final(self).seen,
            r == (fen_play(old(self).fen@, san@) matches Some((_, next)) && fen_zobrist(next)
                is Some),
            !r ==> final(self).fen == old(self).fen && final(self).hash == old(self).hash,
            r ==> final(self).fen@ == fen_play(old(self).fen@, san@).unwrap().1 && Some(
                final(self).hash,
            ) == fen_zobrist(final(self).fen@),
    {
        self.seen = true;
        let san_chars = text::chars_of(san);
        let fen_chars = text::chars_of(self.fen.as_str());
        let next = match play_on_fen(fen_chars.as_slice(), san_chars.as_slice()) {
            Some((_, next)) => next,
            None => return false,
        };
        let next_chars = text::chars_of(next.as_str());
        match zobrist_of_fen(next_chars.as_slice()) {
            Some(h) => {
                self.fen = next;
                self.hash = h;
                true
            },
            None => false,
        }
    }

    /// The game's result marker: it counts as seen; the position is kept.
    pub fn outcome(&mut self)
        ensures
            final(self).seen,
            final(self).fen == old(self).fen,
            final(self).hash == old(self).hash,
    {
        self.seen = true;
    }

    /// The final hash of `movetext`: `None` when it is blank, when the game
    /// was not read to its end, or when it reported neither a move nor a
    /// result marker (text that is not movetext).
    pub fn finish(&self, movetext: &str, read: ReadOutcome) -> (r: Option<u64>)
        ensures
            r == if read == ReadOutcome::Game && text::trim(movetext@).len() > 0 && self.seen {
                Some(self.hash)
            } else {
                None
            },
    {
        let chars = text::chars_of(movetext);
        if text::is_blank(chars.as_slice()) || !self.seen {
            return None;
        }
        match read {
            ReadOutcome::Game => Some(self.hash),
            _ => None,
        }
    }
}

// ---------------------------------------------------------------------------
// Scalar rows
// ---------------------------------------------------------------------------

/// `chess_moves_normalize(VARCHAR) -> VARCHAR`.
pub struct ChessMovesNormalizeScalar;

/// `chess_moves_json(VARCHAR[, BIGINT]) -> VARCHAR`.
pub struct ChessMovesJsonScalar;

/// `chess_fen_epd(VARCHAR) -> VARCHAR`.
pub struct ChessFenEpdScalar;

/// `chess_ply_count(VARCHAR) -> BIGINT`.
pub struct ChessPlyCountScalar;

/// `chess_moves_hash(VARCHAR) -> UBIGINT`.
pub struct ChessMovesHashScalar;

/// `chess_moves_subset(VARCHAR, VARCHAR) -> BOOLEAN`.
pub struct ChessMovesSubsetScalar;

impl ChessMovesJsonScalar {
    /// The output for a NULL row and for a game that fails: the empty
    /// array.
    pub fn empty_output() -> (r: crate::chess::scalar::VarcharOutput)
        ensures
            crate::chess::scalar::output_view(r) == Some("[]"@),
    {
        crate::chess::scalar::null_row_output(crate::chess::scalar::VarcharNullBehavior::Static("[]"))
    }
}

impl ChessFenEpdScalar {
    /// The output for one row (`None`: a NULL input): the EPD, NULL when
    /// the FEN is blank or does not read.
    pub fn invoke_row(value: Option<&str>) -> (r: crate::chess::scalar::VarcharOutput)
        ensures
            crate::chess::scalar::output_view(r) == match value {
                Some(v) => fen_epd(v@),
                None => None,
            },
    {
        match value {
            Some(v) => crate::chess::scalar::output_of(fen_to_epd(v)),
            None => crate::chess::scalar::VarcharOutput::Null,
        }
    }
}

impl ChessMovesSubsetScalar {
    /// The output for one row: NULL when either input is NULL, otherwise
    /// whether the first movetext's mainline is a prefix of the second's.
    pub fn invoke_row<F: Fn(&str) -> ParsedMovetext>(
        short_movetext: Option<&str>,
        long_movetext: Option<&str>,
        parse: F,
    ) -> (r: Option<bool>)
        requires
            forall|m: &str| #[trigger] call_requires(parse, (m,)),
        ensures
            (short_movetext is None || long_movetext is None) ==> r is None,
            short_movetext matches Some(s) ==> long_movetext matches Some(l) ==> r is Some && (
            fast_subset(s@, l@) matches Some(b) ==> r == Some(b)) && (fast_subset(s@, l@) is None
                ==> exists|sp: ParsedMovetext, lp: ParsedMovetext|
                call_ensures(parse, (s,), sp) && call_ensures(parse, (l,), lp) && r == Some(
                    parser_subset(s@, l@, sp@, lp@),
                )),
    {
        match (short_movetext, long_movetext) {
            (Some(s), Some(l)) => Some(check_moves_subset(s, l, parse)),
            _ => None,
        }
    }
}

// ---------------------------------------------------------------------------
// The fast path and the parser
// ---------------------------------------------------------------------------

/// Trailing whitespace does not change the words of a text.
proof fn lemma_words_trailing_ws(s: Seq<char>)
    requires
        s.len() > 0,
        text::is_ws(s.last()),
    ensures
        text::words(s) == text::words(s.drop_last()),
    decreases s.len(),
{
    if s.len() > 1 {
        let t = s.drop_first();
        assert(t.last() == s.last());
        lemma_words_trailing_ws(t);
        let u = s.drop_last();
        assert(u.drop_first() =~= t.drop_last());
        assert(u[0] == s[0]);
        assert(text::words(u) == {
            let rest = text::words(u.drop_first());
            if text::is_ws(u[0]) {
                rest
            } else if u.len() > 1 && !text::is_ws(u[1]) {
                rest.update(0, seq![u[0]] + rest[0])
            } else {
                seq![seq![u[0]]] + rest
            }
        });
        assert(text::words(s) == {
            let rest = text::words(t);
            if text::is_ws(s[0]) {
                rest
            } else if s.len() > 1 && !text::is_ws(s[1]) {
                rest.update(0, seq![s[0]] + rest[0])
            } else {
                seq![seq![s[0]]] + rest
            }
        });
        assert(text::words(t) == text::words(u.drop_first()));
        if t.len() > 1 {
            assert(u[1] == s[1]);
        } else {
            assert(s[1] == s.last());
        }
    } else {
        assert(s.drop_last().len() == 0);
        assert(text::words(s.drop_first()) == Seq::<Seq<char>>::empty()) by {
            assert(s.drop_first().len() == 0);
        }
    }
}

/// Trimming does not change the words of a text.
proof fn lemma_words_trim(s: Seq<char>)
    ensures
        text::words(text::trim(s)) == text::words(s),
{
    lemma_words_trim_start(s);
    lemma_words_trim_end(text::trim_start(s));
}

proof fn lemma_words_trim_start(s: Seq<char>)
    ensures
        text::words(text::trim_start(s)) == text::words(s),
    decreases s.len(),
{
    if s.len() > 0 && text::is_ws(s[0]) {
        lemma_words_trim_start(s.drop_first());
    }
}

proof fn lemma_words_trim_end(s: Seq<char>)
    ensures
        text::words(text::trim_end(s)) == text::words(s),
    decreases s.len(),
{
    if s.len() > 0 && text::is_ws(s.last()) {
        lemma_words_trim_end(s.drop_last());
        lemma_words_trailing_ws(s);
    }
}

/// A clean token walk that has not yet seen a move holds one.
proof fn lemma_clean_walk_has_move(ws: Seq<Seq<char>>, saw_result: bool, saw_san: bool)
    requires
        clean_tokens(ws, saw_result, saw_san),
    ensures
        san_tokens(ws, saw_result) matches Some(ts) ==> (saw_san || ts.len() > 0),
    decreases ws.len(),
{
    if ws.len() > 0 && !saw_result {
        if is_move_number_token(ws[0]) {
            lemma_clean_walk_has_move(ws.drop_first(), saw_result, saw_san);
        } else if is_result_marker(ws[0]) {
            lemma_clean_walk_has_move(ws.drop_first(), true, saw_san);
        }
    }
}

/// A replay gives one display text per move played.
proof fn lemma_replay_len(fen: Seq<char>, ts: Seq<Seq<char>>)
    ensures
        replay(fen, ts) matches Some(a) ==> a.len() == ts.len(),
    decreases ts.len(),
{
    if ts.len() > 0 {
        if let Some((d, next)) = fen_play(fen, ts[0]) {
            lemma_replay_len(next, ts.drop_first());
        }
    }
}

/// The mainline of clean movetext that is not blank holds a move.
proof fn lemma_clean_mainline_nonempty(m: Seq<char>)
    requires
        is_clean_mainline(m),
        text::trim(m).len() > 0,
    ensures
        clean_mainline_sans(m) matches Some(a) ==> a.len() > 0,
{
    lemma_words_trim(m);
    if let Some(ts) = san_tokens(text::words(m), false) {
        lemma_clean_walk_has_move(text::words(m), false, false);
        lemma_replay_len(start_fen(), ts);
    }
}

/// Law: on clean movetext, where the fast path decides, the parser-backed
/// decision agrees with it, over readings that report no error and list
/// the texts' moves (their display texts, as played from the start).
pub proof fn law_fast_path_agrees_with_parser(
    short: Seq<char>,
    long: Seq<char>,
    sp: MovetextModel,
    lp: MovetextModel,
)
    requires
        fast_subset(short, long) is Some,
        !sp.parse_error,
        !lp.parse_error,
        clean_mainline_sans(short) == Some(sp.sans),
        clean_mainline_sans(long) == Some(lp.sans),
    ensures
        parser_subset(short, long, sp, lp) == fast_subset(short, long).unwrap(),
{
    if text::trim(short).len() > 0 {
        lemma_clean_mainline_nonempty(short);
    }
    if text::trim(long).len() > 0 {
        lemma_clean_mainline_nonempty(long);
    }
}

// ---------------------------------------------------------------------------
// Laws of the subset relation
// ---------------------------------------------------------------------------

/// Law: every mainline is a subset of itself.
pub proof fn law_prefix_reflexive(a: Seq<Seq<char>>)
    ensures
        is_prefix(a, a),
{
    assert(a.take(a.len() as int) =~= a);
}

/// Law: the empty mainline is a subset of every mainline.
pub proof fn law_empty_prefix(a: Seq<Seq<char>>)
    ensures
        is_prefix(Seq::empty(), a),
{
    assert(a.take(0) =~= Seq::<Seq<char>>::empty());
}

/// Law: a subset of a subset is a subset.
pub proof fn law_prefix_transitive(a: Seq<Seq<char>>, b: Seq<Seq<char>>, c: Seq<Seq<char>>)
    requires
        is_prefix(a, b),
        is_prefix(b, c),
    ensures
        is_prefix(a, c),
{
    assert(c.take(a.len() as int) =~= c.take(b.len() as int).take(a.len() as int));
}

/// Law: two mainlines that are subsets of each other are equal.
pub proof fn law_prefix_antisymmetric(a: Seq<Seq<char>>, b: Seq<Seq<char>>)
    requires
        is_prefix(a, b),
        is_prefix(b, a),
    ensures
        a == b,
{
    assert(b.take(a.len() as int) =~= b);
}

/// Law: a mainline is a prefix of another exactly when it is no longer and
/// agrees with it move by move; in particular every mainline is a prefix of
/// itself followed by more moves.
pub proof fn law_prefix_is_moves_agreeing(a: Seq<Seq<char>>, b: Seq<Seq<char>>, c: Seq<Seq<char>>)
    ensures
        is_prefix(a, b) <==> (a.len() <= b.len() && forall|i: int| 0 <= i < a.len() ==> a[i] == b[i]),
        is_prefix(a, a + c),
{
    if a.len() <= b.len() && forall|i: int| 0 <= i < a.len() ==> a[i] == b[i] {
        assert(b.take(a.len() as int) =~= a);
    }
    if is_prefix(a, b) {
        assert forall|i: int| 0 <= i < a.len() implies a[i] == b[i] by {
            assert(b.take(a.len() as int)[i] == b[i]);
        }
    }
    assert((a + c).take(a.len() as int) =~= a);
}

/// Law: the moves JSON of non-blank movetext with a positive ply limit `m`
/// that fits in `usize` stops at exactly `m` plies: the plan's limit is `m`
/// and the JSON is at its limit exactly once `m` plies are written. Blank
/// movetext and a limit that is not positive give the empty array; no limit,
/// or one too large for `usize`, reads every move.
pub proof fn law_moves_json_limit(movetext: Seq<char>, m: i64, ply: usize)
    ensures
        text::trim(movetext).len() > 0 && 0 < m <= usize::MAX ==> moves_json_limit(
            movetext,
            Some(m),
        ) == Some(Some(m as usize)),
        text::trim(movetext).len() > 0 && 0 < m <= usize::MAX ==> (at_limit(Some(m as usize), ply)
            <==> ply >= m),
        text::trim(movetext).len() > 0 && m > usize::MAX ==> moves_json_limit(movetext, Some(m))
            == Some(None::<usize>),
        text::trim(movetext).len() > 0 ==> moves_json_limit(movetext, None) == Some(None::<usize>),
        !at_limit(None, ply),
        (text::trim(movetext).len() == 0 || m <= 0) ==> moves_json_limit(movetext, Some(m)) is None,
{
}

/// Law: the normalized movetext numbers White's `k`-th move (the move after
/// `2 * (k - 1)` plies) with `k` written in decimal, followed by `". "`, and
/// leaves Black's moves unnumbered.
pub proof fn law_serializer_numbers_moves(output: Seq<char>, k: u32, san: Seq<char>)
    requires
        k >= 1,
    ensures
        exists|num: Seq<char>|
            #![trigger text::parse_u32(num)]
            text::parse_u32(num) == Some(k) && (forall|j: int| 0 <= j < num.len() ==> text::is_digit(#[trigger] num[j]))
                && serialized_move(output, (2 * (k - 1)) as nat, san) == output + (if output.len() > 0 {
                seq![' ']
            } else {
                Seq::empty()
            }) + num + ". "@ + san,
        serialized_move(output, (2 * (k - 1) + 1) as nat, san) == output + seq![' '] + san,
{
    text::lemma_parse_dec(k);
    text::lemma_dec_digits(k as nat);
    let c: nat = (2 * (k - 1)) as nat;
    assert(c % 2 == 0);
    assert(c / 2 + 1 == k);
    assert(((2 * (k - 1) + 1) as nat) % 2 == 1);
    let num = text::dec(k as nat);
    assert(text::parse_u32(num) == Some(k));
}

} // verus!
