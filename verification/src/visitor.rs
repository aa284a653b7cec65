//! The plain PGN reader's per-game state: every header as read, the
//! mainline movetext with comments, and the record built at a game's end.
use vstd::prelude::*;
use crate::chess::timecontrol::opt_string_view;
use crate::chess::visitor::{decode_utf8_lossy, utf8_lossy};
use crate::text::{self, append_chars, append_str, string_of};
use crate::types::{GameRecord, RecordModel};

verus! {

/// The value of the first header named `key`.
pub open spec fn header(hs: Seq<(Seq<char>, Seq<char>)>, key: Seq<char>) -> Option<Seq<char>>
    decreases hs.len(),
{
    if hs.len() == 0 {
        None
    } else if hs[0].0 == key {
        Some(hs[0].1)
    } else {
        header(hs.drop_first(), key)
    }
}

/// A rating header read as an `i32`.
pub open spec fn elo(v: Option<Seq<char>>) -> Option<i32> {
    match v {
        Some(s) => match text::parse_signed(s, i32::MIN as int, i32::MAX as int) {
            Ok(n) => Some(n as i32),
            Err(_) => None,
        },
        None => None,
    }
}

pub open spec fn or_else(a: Option<Seq<char>>, b: Option<Seq<char>>) -> Option<Seq<char>> {
    if a is Some {
        a
    } else {
        b
    }
}

/// The record of a game: header values as read, ratings as numbers, the
/// date and time from their UTC headers or else the plain ones, the
/// movetext trimmed.
pub open spec fn record_of(
    hs: Seq<(Seq<char>, Seq<char>)>,
    movetext: Seq<char>,
    parse_error: Option<Seq<char>>,
) -> RecordModel {
    RecordModel {
        event: header(hs, "Event"@),
        site: header(hs, "Site"@),
        white: header(hs, "White"@),
        black: header(hs, "Black"@),
        result: header(hs, "Result"@),
        white_title: header(hs, "WhiteTitle"@),
        black_title: header(hs, "BlackTitle"@),
        white_elo: elo(header(hs, "WhiteElo"@)),
        black_elo: elo(header(hs, "BlackElo"@)),
        utc_date: or_else(header(hs, "UTCDate"@), header(hs, "Date"@)),
        utc_time: or_else(header(hs, "UTCTime"@), header(hs, "Time"@)),
        eco: header(hs, "ECO"@),
        opening: header(hs, "Opening"@),
        termination: header(hs, "Termination"@),
        time_control: header(hs, "TimeControl"@),
        movetext: text::trim(movetext),
        parse_error,
    }
}

pub open spec fn pairs_view(v: Seq<(String, String)>) -> Seq<(Seq<char>, Seq<char>)> {
    Seq::new(v.len(), |i: int| (v[i].0@, v[i].1@))
}

/// Reads games event by event into records.
pub struct GameVisitor {
    headers: Vec<(String, String)>,
    movetext_buffer: String,
    move_count: u32,
    pub current_game: Option<GameRecord>,
}

pub open spec fn opt_record_view(g: Option<GameRecord>) -> Option<RecordModel> {
    match g {
        Some(r) => Some(r@),
        None => None,
    }
}

impl GameVisitor {
    pub closed spec fn headers(&self) -> Seq<(Seq<char>, Seq<char>)> {
        pairs_view(self.headers@)
    }

    pub closed spec fn buffer(&self) -> Seq<char> {
        self.movetext_buffer@
    }

    pub closed spec fn move_count(&self) -> u32 {
        self.move_count
    }

    /// Whether another mainline move can be counted.
    pub fn can_take_move(&self) -> (r: bool)
        ensures
            r == (self.move_count() < u32::MAX),
    {
        self.move_count < u32::MAX
    }

    pub closed spec fn game(&self) -> Option<RecordModel> {
        opt_record_view(self.current_game)
    }

    pub fn new() -> (r: Self)
        ensures
            r.headers().len() == 0,
            r.buffer().len() == 0,
            r.move_count() == 0,
            r.game() is None,
    {
        GameVisitor {
            headers: Vec::new(),
            movetext_buffer: String::new(),
            move_count: 0,
            current_game: None,
        }
    }

    fn get_header(&self, key: &str) -> (r: Option<String>)
        ensures
            opt_string_view(r) == header(self.headers(), key@),
    {
        let k = text::chars_of(key);
        let mut i: usize = 0;
        let ghost hs = self.headers();
        assert(hs.skip(0) =~= hs);
        while i < self.headers.len()
            invariant
                i <= self.headers@.len(),
                hs == pairs_view(self.headers@),
                k@ == key@,
                header(hs, key@) == header(hs.skip(i as int), key@),
            decreases self.headers.len() - i,
        {
            assert(hs.skip(i as int)[0] == hs[i as int]);
            assert(hs.skip(i as int).drop_first() =~= hs.skip(i + 1));
            let name = text::chars_of(self.headers[i].0.as_str());
            if text::chars_eq(name.as_slice(), k.as_slice()) {
                return Some(self.headers[i].1.clone());
            }
            i += 1;
        }
        None
    }

    fn elo_header(&self, key: &str) -> (r: Option<i32>)
        ensures
            r == elo(header(self.headers(), key@)),
    {
        match self.get_header(key) {
            Some(s) => {
                let c = text::chars_of(s.as_str());
                match text::parse_i32_result(c.as_slice()) {
                    Ok(v) => Some(v),
                    Err(_) => None,
                }
            },
            None => None,
        }
    }

    fn header_or(&self, key: &str, fallback: &str) -> (r: Option<String>)
        ensures
            opt_string_view(r) == or_else(
                header(self.headers(), key@),
                header(self.headers(), fallback@),
            ),
    {
        match self.get_header(key) {
            Some(v) => Some(v),
            None => self.get_header(fallback),
        }
    }

    fn record(&self, parse_error: Option<String>) -> (r: GameRecord)
        ensures
            r@ == record_of(self.headers(), self.buffer(), opt_string_view(parse_error)),
    {
        let buffer = text::chars_of(self.movetext_buffer.as_str());
        GameRecord {
            event: self.get_header("Event"),
            site: self.get_header("Site"),
            white: self.get_header("White"),
            black: self.get_header("Black"),
            result: self.get_header("Result"),
            white_title: self.get_header("WhiteTitle"),
            black_title: self.get_header("BlackTitle"),
            white_elo: self.elo_header("WhiteElo"),
            black_elo: self.elo_header("BlackElo"),
            utc_date: self.header_or("UTCDate", "Date"),
            utc_time: self.header_or("UTCTime", "Time"),
            eco: self.get_header("ECO"),
            opening: self.get_header("Opening"),
            termination: self.get_header("Termination"),
            time_control: self.get_header("TimeControl"),
            movetext: string_of(text::trim_chars(buffer.as_slice()).as_slice()),
            parse_error,
        }
    }

    /// Builds the record of a game read without error.
    pub fn finalize_game(&mut self)
        ensures
            final(self).game() == Some(record_of(old(self).headers(), old(self).buffer(), None)),
            final(self).headers() == old(self).headers(),
            final(self).buffer() == old(self).buffer(),
    {
        self.current_game = Some(self.record(None));
    }

    /// Builds a partial record of a game whose reading failed, carrying the
    /// error message.
    pub fn finalize_game_with_error(&mut self, error_msg: String)
        ensures
            final(self).game() == Some(
                record_of(old(self).headers(), old(self).buffer(), Some(error_msg@)),
            ),
            final(self).headers() == old(self).headers(),
            final(self).buffer() == old(self).buffer(),
    {
        self.current_game = Some(self.record(Some(error_msg)));
    }

    /// A new game starts: everything seen is forgotten.
    pub fn begin_tags(&mut self)
        ensures
            final(self).headers().len() == 0,
            final(self).buffer().len() == 0,
            final(self).move_count() == 0,
            final(self).game() is None,
    {
        self.headers = Vec::new();
        self.movetext_buffer = String::new();
        self.move_count = 0;
        self.current_game = None;
    }

    /// A header tag, decoded leniently, kept in order.
    pub fn tag(&mut self, key: &[u8], value: &[u8])
        ensures
            final(self).headers() == old(self).headers().push((utf8_lossy(key@), utf8_lossy(value@))),
            final(self).buffer() == old(self).buffer(),
            final(self).move_count() == old(self).move_count(),
            final(self).game() == old(self).game(),
    {
        let k = decode_utf8_lossy(key);
        let v = decode_utf8_lossy(value);
        let ghost before = self.headers@;
        self.headers.push((k, v));
        assert(pairs_view(self.headers@) =~= pairs_view(before).push((utf8_lossy(key@), utf8_lossy(value@))));
    }

    /// A mainline move: a space after the first move, the move number
    /// before White's moves, then the move.
    pub fn san(&mut self, movetext: &mut Vec<char>, san: &str)
        requires
            old(self).move_count() < u32::MAX,
        ensures
            final(movetext)@ == old(movetext)@ + (if old(self).move_count() > 0 {
                seq![' ']
            } else {
                Seq::empty()
            }) + (if old(self).move_count() % 2 == 0 {
                text::dec((old(self).move_count() / 2 + 1) as nat) + ". "@
            } else {
                Seq::empty()
            }) + san@,
            final(self).move_count() == old(self).move_count() + 1,
            final(self).headers() == old(self).headers(),
            final(self).buffer() == old(self).buffer(),
            final(self).game() == old(self).game(),
    {
        let ghost start = movetext@;
        if self.move_count > 0 {
            movetext.push(' ');
        }
        if self.move_count % 2 == 0 {
            text::push_decimal(movetext, (self.move_count / 2 + 1) as u64);
            append_str(movetext, ". ");
        }
        append_str(movetext, san);
        self.move_count = self.move_count + 1;
        assert(final(movetext)@ =~= start + (if old(self).move_count() > 0 {
            seq![' ']
        } else {
            Seq::empty()
        }) + (if old(self).move_count() % 2 == 0 {
            text::dec((old(self).move_count() / 2 + 1) as nat) + ". "@
        } else {
            Seq::empty()
        }) + san@);
    }

    /// A comment: ` { ` then the comment trimmed then ` }`.
    pub fn comment(&mut self, movetext: &mut Vec<char>, comment: &[u8])
        ensures
            final(movetext)@ == old(movetext)@ + " { "@ + text::trim(utf8_lossy(comment@)) + " }"@,
            *final(self) == *old(self),
    {
        let c = decode_utf8_lossy(comment);
        let chars = text::chars_of(c.as_str());
        let t = text::trim_chars(chars.as_slice());
        append_str(movetext, " { ");
        append_chars(movetext, t.as_slice());
        append_str(movetext, " }");
    }

    /// The game ended: the record is built from its movetext.
    pub fn end_game(&mut self, movetext: Vec<char>)
        ensures
            final(self).game() == Some(record_of(old(self).headers(), movetext@, None)),
            final(self).buffer() == movetext@,
    {
        self.movetext_buffer = string_of(movetext.as_slice());
        self.finalize_game();
    }
}

} // verus!
