//! The PGN game reader's state: headers, mainline movetext with comments,
//! and the record built at the end of each game.
use vstd::prelude::*;
use crate::chess::error::{pushed, ErrorAccumulator};
use crate::chess::fields::{
    self, best_date, best_time, date_candidates, note, opt_str, parse_best_date_field,
    parse_best_time_tz_field, parse_uinteger_field, rank, uint_field,
};
use crate::chess::timecontrol::{opt_string_view, string_views};
use crate::chess::types::{GameModel, GameRecord};
use crate::text::{self, append_chars, append_str, string_of};

verus! {

/// Number of header tags kept.
pub const TAG_COUNT: usize = 19;

/// The kept header tags, by slot.
pub open spec fn tag_name(i: int) -> Seq<char> {
    if i == 0 {
        "Event"@
    } else if i == 1 {
        "Site"@
    } else if i == 2 {
        "Source"@
    } else if i == 3 {
        "White"@
    } else if i == 4 {
        "Black"@
    } else if i == 5 {
        "Result"@
    } else if i == 6 {
        "WhiteTitle"@
    } else if i == 7 {
        "BlackTitle"@
    } else if i == 8 {
        "WhiteElo"@
    } else if i == 9 {
        "BlackElo"@
    } else if i == 10 {
        "UTCDate"@
    } else if i == 11 {
        "Date"@
    } else if i == 12 {
        "EventDate"@
    } else if i == 13 {
        "UTCTime"@
    } else if i == 14 {
        "Time"@
    } else if i == 15 {
        "ECO"@
    } else if i == 16 {
        "Opening"@
    } else if i == 17 {
        "Termination"@
    } else {
        "TimeControl"@
    }
}

fn tag_name_exec(i: usize) -> (r: &'static str)
    ensures
        r@ == tag_name(i as int),
{
    if i == 0 {
        "Event"
    } else if i == 1 {
        "Site"
    } else if i == 2 {
        "Source"
    } else if i == 3 {
        "White"
    } else if i == 4 {
        "Black"
    } else if i == 5 {
        "Result"
    } else if i == 6 {
        "WhiteTitle"
    } else if i == 7 {
        "BlackTitle"
    } else if i == 8 {
        "WhiteElo"
    } else if i == 9 {
        "BlackElo"
    } else if i == 10 {
        "UTCDate"
    } else if i == 11 {
        "Date"
    } else if i == 12 {
        "EventDate"
    } else if i == 13 {
        "UTCTime"
    } else if i == 14 {
        "Time"
    } else if i == 15 {
        "ECO"
    } else if i == 16 {
        "Opening"
    } else if i == 17 {
        "Termination"
    } else {
        "TimeControl"
    }
}

/// Whether a tag name's bytes spell `name`.
pub open spec fn bytes_spell(key: Seq<u8>, name: Seq<char>) -> bool {
    key.len() == name.len() && forall|j: int| 0 <= j < key.len() ==> key[j] as char == name[j]
}

/// The slot of the first kept tag (from slot `i` on) that a tag name spells.
pub open spec fn tag_slot_from(key: Seq<u8>, i: int) -> Option<int>
    decreases 19 - i,
{
    if i >= 19 {
        None
    } else if bytes_spell(key, tag_name(i)) {
        Some(i)
    } else {
        tag_slot_from(key, i + 1)
    }
}

pub open spec fn tag_slot(key: Seq<u8>) -> Option<int> {
    tag_slot_from(key, 0)
}

fn bytes_spell_exec(key: &[u8], name: &str) -> (r: bool)
    ensures
        r == bytes_spell(key@, name@),
{
    let n = text::chars_of(name);
    if key.len() != n.len() {
        return false;
    }
    let mut j: usize = 0;
    while j < key.len()
        invariant
            j <= key@.len(),
            key@.len() == n@.len(),
            n@ == name@,
            forall|k: int| 0 <= k < j ==> key@[k] as char == n@[k],
        decreases key.len() - j,
    {
        if key[j] as char != n[j] {
            return false;
        }
        j += 1;
    }
    true
}

fn tag_slot_exec(key: &[u8]) -> (r: Option<usize>)
    ensures
        r matches Some(i) ==> tag_slot(key@) == Some(i as int) && i < 19,
        r is None ==> tag_slot(key@) is None,
{
    let mut i: usize = 0;
    while i < 19
        invariant
            i <= 19,
            tag_slot(key@) == tag_slot_from(key@, i as int),
        decreases 19 - i,
    {
        if bytes_spell_exec(key, tag_name_exec(i)) {
            return Some(i);
        }
        i += 1;
    }
    None
}

/// `String::from_utf8_lossy`: the bytes decoded as UTF-8, invalid sequences
/// replaced by U+FFFD.
pub uninterp spec fn utf8_lossy(bytes: Seq<u8>) -> Seq<char>;

/// Calls `String::from_utf8_lossy`; the result is `utf8_lossy` of the
/// bytes, unproved.
#[verifier::external_body]
pub(crate) fn decode_utf8_lossy(bytes: &[u8]) -> (r: String)
    ensures
        r@ == utf8_lossy(bytes@),
{
    String::from_utf8_lossy(bytes).into_owned()
}

/// The values of the kept header tags, one slot per tag, empty when unset.
pub struct HeaderFields {
    values: Vec<String>,
}

impl View for HeaderFields {
    type V = Seq<Seq<char>>;

    closed spec fn view(&self) -> Seq<Seq<char>> {
        string_views(self.values@)
    }
}

pub open spec fn all_empty(h: Seq<Seq<char>>) -> bool {
    h.len() == 19 && forall|i: int| 0 <= i < 19 ==> (#[trigger] h[i]).len() == 0
}

/// A header value, `None` when empty.
pub open spec fn nonempty(s: Seq<char>) -> Option<Seq<char>> {
    if s.len() == 0 {
        None
    } else {
        Some(s)
    }
}

/// The headers after a tag: a kept tag whose slot is still empty takes the
/// non-empty value, decoded leniently; the first value of a tag wins.
pub open spec fn with_tag(h: Seq<Seq<char>>, key: Seq<u8>, value: Seq<u8>) -> Seq<Seq<char>> {
    match tag_slot(key) {
        Some(i) => if h[i].len() == 0 && value.len() > 0 {
            h.update(i, utf8_lossy(value))
        } else {
            h
        },
        None => h,
    }
}

impl HeaderFields {
    pub closed spec fn wf(&self) -> bool {
        self.values@.len() == 19
    }

    pub fn new() -> (r: Self)
        ensures
            r.wf(),
            all_empty(r@),
    {
        let mut values: Vec<String> = Vec::new();
        let mut i: usize = 0;
        while i < 19
            invariant
                i <= 19,
                values@.len() == i,
                forall|k: int| 0 <= k < i ==> (#[trigger] values@[k])@.len() == 0,
            decreases 19 - i,
        {
            values.push(String::new());
            i += 1;
        }
        HeaderFields { values }
    }

    pub fn clear(&mut self)
        ensures
            final(self).wf(),
            all_empty(final(self)@),
    {
        *self = HeaderFields::new();
    }

    /// The value in slot `i`.
    pub fn get(&self, i: usize) -> (r: &String)
        requires
            self.wf(),
            i < 19,
        ensures
            r@ == self@[i as int],
    {
        &self.values[i]
    }

    /// Takes the value in slot `i` (`None` when empty), leaving it empty.
    pub fn opt_take(&mut self, i: usize) -> (r: Option<String>)
        requires
            old(self).wf(),
            i < 19,
        ensures
            final(self).wf(),
            opt_string_view(r) == nonempty(old(self)@[i as int]),
            final(self)@ == old(self)@.update(i as int, Seq::empty()),
    {
        let v = self.values[i].clone();
        self.values.set(i, String::new());
        assert(final(self)@ =~= old(self)@.update(i as int, Seq::empty()));
        if text::str_is_empty(v.as_str()) {
            None
        } else {
            Some(v)
        }
    }

    /// Records a tag; unknown tags, repeated tags and empty values are
    /// ignored.
    pub fn set_known_tag(&mut self, key: &[u8], value: &[u8])
        requires
            old(self).wf(),
        ensures
            final(self).wf(),
            final(self)@ == with_tag(old(self)@, key@, value@),
    {
        let i = match tag_slot_exec(key) {
            Some(i) => i,
            None => return,
        };
        if !text::str_is_empty(self.values[i].as_str()) {
            return;
        }
        if value.len() == 0 {
            return;
        }
        self.values.set(i, decode_utf8_lossy(value));
        assert(final(self)@ =~= old(self)@.update(i as int, utf8_lossy(value@)));
    }
}

/// The record built from a game's headers, movetext, result marker and
/// errors: ratings, then the best date, then the best time are read (their
/// errors added in that order); the `Result` header wins over the marker;
/// the movetext is trimmed.
pub open spec fn built_record(
    h: Seq<Seq<char>>,
    movetext: Seq<char>,
    marker: Option<Seq<char>>,
    pe: Option<Seq<char>>,
) -> GameModel {
    let (we, m1) = uint_field(nonempty(h[8]), "WhiteElo"@);
    let a1 = note(pe, m1);
    let (be, m2) = uint_field(nonempty(h[9]), "BlackElo"@);
    let a2 = note(a1, m2);
    let raws = seq![nonempty(h[10]), nonempty(h[11]), nonempty(h[12])];
    let (date, a3) = best_date(raws, rank(date_candidates(raws, 3)), a2);
    let (time, a4) = best_time(nonempty(h[13]), nonempty(h[14]), a3);
    GameModel {
        event: nonempty(h[0]),
        site: nonempty(h[1]),
        source: nonempty(h[2]),
        white: nonempty(h[3]),
        black: nonempty(h[4]),
        result: if h[5].len() > 0 {
            Some(h[5])
        } else {
            marker
        },
        white_title: nonempty(h[6]),
        black_title: nonempty(h[7]),
        white_elo: we,
        black_elo: be,
        utc_date: date,
        utc_time: time,
        eco: nonempty(h[15]),
        opening: nonempty(h[16]),
        termination: nonempty(h[17]),
        time_control: nonempty(h[18]),
        movetext: text::trim(movetext),
        parse_error: a4,
    }
}

/// The headers left after building a record: the text headers are handed
/// to the record, the rating, date and time headers stay.
pub open spec fn headers_after_build(h: Seq<Seq<char>>) -> Seq<Seq<char>> {
    Seq::new(19, |i: int| if 8 <= i <= 14 { h[i] } else { Seq::empty() })
}

/// The movetext after a mainline move: a space unless empty, the move
/// number before White's moves, then the move.
pub open spec fn with_move(movetext: Seq<char>, move_count: u32, san: Seq<char>) -> Seq<char> {
    movetext + (if movetext.len() > 0 {
        seq![' ']
    } else {
        Seq::empty()
    }) + (if move_count % 2 == 0 {
        text::dec((move_count / 2 + 1) as nat) + ". "@
    } else {
        Seq::empty()
    }) + san
}

/// The movetext after a comment: a space unless empty, then the comment
/// trimmed inside `{ ` and ` }`.
pub open spec fn with_comment(movetext: Seq<char>, comment: Seq<u8>) -> Seq<char> {
    movetext + (if movetext.len() > 0 {
        seq![' ']
    } else {
        Seq::empty()
    }) + "{ "@ + text::trim(utf8_lossy(comment)) + " }"@
}

/// Reads games event by event: headers, mainline moves and comments,
/// variations skipped, the result; builds a record at each game's end.
pub struct GameVisitor {
    headers: HeaderFields,
    pub movetext_buffer: String,
    move_count: u32,
    result_marker: Option<String>,
    parse_error: ErrorAccumulator,
    pub current_game: Option<GameRecord>,
}

pub open spec fn opt_game_view(g: Option<GameRecord>) -> Option<GameModel> {
    match g {
        Some(r) => Some(r@),
        None => None,
    }
}

impl GameVisitor {
    pub closed spec fn wf(&self) -> bool {
        self.headers.wf()
    }

    pub closed spec fn headers(&self) -> Seq<Seq<char>> {
        self.headers@
    }

    pub closed spec fn move_count(&self) -> u32 {
        self.move_count
    }

    /// Whether another mainline move can be counted.
    pub fn can_take_move(&self) -> (r: bool)
        ensures
            r == (self.move_count() < u32::MAX),
    {
        self.move_count < u32::MAX
    }

    pub closed spec fn result_marker(&self) -> Option<Seq<char>> {
        opt_string_view(self.result_marker)
    }

    pub closed spec fn errors(&self) -> Option<Seq<char>> {
        self.parse_error@
    }

    /// The movetext waiting for the record.
    pub closed spec fn buffer(&self) -> Seq<char> {
        self.movetext_buffer@
    }

    /// The last record built.
    pub closed spec fn game(&self) -> Option<GameModel> {
        opt_game_view(self.current_game)
    }

    /// Whether nothing of a game has been seen.
    pub closed spec fn is_fresh(&self) -> bool {
        &&& self.wf()
        &&& all_empty(self.headers())
        &&& self.buffer().len() == 0
        &&& self.move_count() == 0
        &&& self.result_marker() is None
        &&& self.errors() is None
        &&& self.current_game is None
    }

    pub fn new() -> (r: Self)
        ensures
            r.is_fresh(),
            r.wf(),
            all_empty(r.headers()),
            r.buffer().len() == 0,
            r.move_count() == 0,
            r.result_marker() is None,
            r.errors() is None,
            r.game() is None,
    {
        GameVisitor {
            headers: HeaderFields::new(),
            movetext_buffer: String::new(),
            move_count: 0,
            result_marker: None,
            parse_error: ErrorAccumulator::default(),
            current_game: None,
        }
    }

    /// A new game starts: everything seen is forgotten.
    pub fn begin_tags(&mut self)
        ensures
            final(self).is_fresh(),
            final(self).wf(),
            all_empty(final(self).headers()),
            final(self).buffer().len() == 0,
            final(self).move_count() == 0,
            final(self).result_marker() is None,
            final(self).errors() is None,
            final(self).game() is None,
    {
        self.headers.clear();
        self.movetext_buffer = String::new();
        self.move_count = 0;
        self.result_marker = None;
        self.parse_error = ErrorAccumulator::default();
        self.current_game = None;
    }

    /// A header tag.
    pub fn tag(&mut self, key: &[u8], value: &[u8])
        requires
            old(self).wf(),
        ensures
            final(self).wf(),
            final(self).headers() == with_tag(old(self).headers(), key@, value@),
            final(self).buffer() == old(self).buffer(),
            final(self).move_count() == old(self).move_count(),
            final(self).result_marker() == old(self).result_marker(),
            final(self).errors() == old(self).errors(),
            final(self).game() == old(self).game(),
    {
        self.headers.set_known_tag(key, value);
    }

    /// A mainline move, in its SAN text, appended to the movetext.
    pub fn san(&mut self, movetext: &mut Vec<char>, san: &str)
        requires
            old(self).move_count() < u32::MAX,
        ensures
            final(movetext)@ == with_move(old(movetext)@, old(self).move_count(), san@),
            final(self).move_count() == old(self).move_count() + 1,
            final(self).wf() == old(self).wf(),
            final(self).headers() == old(self).headers(),
            final(self).buffer() == old(self).buffer(),
            final(self).result_marker() == old(self).result_marker(),
            final(self).errors() == old(self).errors(),
            final(self).game() == old(self).game(),
    {
        let ghost start = movetext@;
        if movetext.len() > 0 {
            movetext.push(' ');
        }
        let ghost after_space = movetext@;
        if self.move_count % 2 == 0 {
            text::push_decimal(movetext, (self.move_count / 2 + 1) as u64);
            append_str(movetext, ". ");
        }
        append_str(movetext, san);
        self.move_count = self.move_count + 1;
        assert(final(movetext)@ =~= with_move(start, old(self).move_count(), san@));
    }

    /// A comment, trimmed inside braces, appended to the movetext.
    pub fn comment(&mut self, movetext: &mut Vec<char>, comment: &[u8])
        ensures
            final(movetext)@ == with_comment(old(movetext)@, comment@),
            *final(self) == *old(self),
    {
        let ghost start = movetext@;
        let text = decode_utf8_lossy(comment);
        let chars = text::chars_of(text.as_str());
        let trimmed = text::trim_chars(chars.as_slice());
        if movetext.len() > 0 {
            movetext.push(' ');
        }
        append_str(movetext, "{ ");
        append_chars(movetext, trimmed.as_slice());
        append_str(movetext, " }");
        assert(final(movetext)@ =~= with_comment(start, comment@));
    }

    /// The game's result marker.
    pub fn outcome(&mut self, outcome: String)
        ensures
            final(self).result_marker() == Some(outcome@),
            final(self).wf() == old(self).wf(),
            final(self).headers() == old(self).headers(),
            final(self).buffer() == old(self).buffer(),
            final(self).move_count() == old(self).move_count(),
            final(self).errors() == old(self).errors(),
            final(self).game() == old(self).game(),
    {
        self.result_marker = Some(outcome);
    }

    /// Builds the game's record from what was seen (see `built_record`).
    pub fn build_game_record(&mut self)
        requires
            old(self).wf(),
        ensures
            final(self).wf(),
            final(self).game() == Some(
                built_record(
                    old(self).headers(),
                    old(self).buffer(),
                    old(self).result_marker(),
                    old(self).errors(),
                ),
            ),
            final(self).headers() == headers_after_build(old(self).headers()),
            final(self).result_marker() == if old(self).headers()[5].len() > 0 {
                old(self).result_marker()
            } else {
                None
            },
            final(self).buffer().len() == 0,
            final(self).errors() is None,
            final(self).move_count() == old(self).move_count(),
    {
        let ghost h = self.headers@;
        let ghost pe0 = self.parse_error@;
        let we_raw = if text::str_is_empty(self.headers.get(8).as_str()) {
            None
        } else {
            Some(self.headers.get(8).as_str())
        };
        let white_elo = parse_uinteger_field(we_raw, "WhiteElo", &mut self.parse_error);
        let be_raw = if text::str_is_empty(self.headers.get(9).as_str()) {
            None
        } else {
            Some(self.headers.get(9).as_str())
        };
        let black_elo = parse_uinteger_field(be_raw, "BlackElo", &mut self.parse_error);
        let d0 = if text::str_is_empty(self.headers.get(10).as_str()) {
            None
        } else {
            Some(self.headers.get(10).as_str())
        };
        let d1 = if text::str_is_empty(self.headers.get(11).as_str()) {
            None
        } else {
            Some(self.headers.get(11).as_str())
        };
        let d2 = if text::str_is_empty(self.headers.get(12).as_str()) {
            None
        } else {
            Some(self.headers.get(12).as_str())
        };
        assert(seq![opt_str(d0), opt_str(d1), opt_str(d2)] =~= seq![
            nonempty(h[10]),
            nonempty(h[11]),
            nonempty(h[12]),
        ]);
        let utc_date = parse_best_date_field(d0, d1, d2, &mut self.parse_error);
        let t0 = if text::str_is_empty(self.headers.get(13).as_str()) {
            None
        } else {
            Some(self.headers.get(13).as_str())
        };
        let t1 = if text::str_is_empty(self.headers.get(14).as_str()) {
            None
        } else {
            Some(self.headers.get(14).as_str())
        };
        let utc_time = parse_best_time_tz_field(t0, t1, &mut self.parse_error);
        let buffer = text::chars_of(self.movetext_buffer.as_str());
        let movetext = string_of(text::trim_chars(buffer.as_slice()).as_slice());
        self.movetext_buffer = String::new();
        let event = self.headers.opt_take(0);
        let site = self.headers.opt_take(1);
        let source = self.headers.opt_take(2);
        let white = self.headers.opt_take(3);
        let black = self.headers.opt_take(4);
        let result = match self.headers.opt_take(5) {
            Some(r) => Some(r),
            None => self.result_marker.take(),
        };
        let white_title = self.headers.opt_take(6);
        let black_title = self.headers.opt_take(7);
        let eco = self.headers.opt_take(15);
        let opening = self.headers.opt_take(16);
        let termination = self.headers.opt_take(17);
        let time_control = self.headers.opt_take(18);
        let parse_error = self.parse_error.take();
        self.current_game = Some(
            GameRecord {
                event,
                site,
                source,
                white,
                black,
                result,
                white_title,
                black_title,
                white_elo,
                black_elo,
                utc_date,
                utc_time,
                eco,
                opening,
                termination,
                time_control,
                movetext,
                parse_error,
            },
        );
        assert(self.headers@ =~= headers_after_build(h));
    }

    /// The game ended: the result marker, or else the `Result` header, is
    /// kept, and the record is built from the movetext.
    pub fn end_game(&mut self, movetext: Vec<char>)
        requires
            old(self).wf(),
        ensures
            final(self).wf(),
            final(self).game() == Some(
                if old(self).result_marker() is Some {
                    built_record(
                        old(self).headers(),
                        movetext@,
                        old(self).result_marker(),
                        old(self).errors(),
                    )
                } else {
                    built_record(
                        old(self).headers().update(5, Seq::empty()),
                        movetext@,
                        nonempty(old(self).headers()[5]),
                        old(self).errors(),
                    )
                },
            ),
    {
        if self.result_marker.is_none() {
            self.result_marker = self.headers.opt_take(5);
        }
        self.movetext_buffer = string_of(movetext.as_slice());
        self.build_game_record();
    }

    /// Builds the record of a game whose reading failed, with the failure
    /// added to its errors.
    pub fn finalize_game_with_error(&mut self, error_msg: String)
        requires
            old(self).wf(),
        ensures
            final(self).wf(),
            final(self).game() == Some(
                built_record(
                    old(self).headers(),
                    old(self).buffer(),
                    old(self).result_marker(),
                    pushed(old(self).errors(), error_msg@),
                ),
            ),
            final(self).buffer().len() == 0,
            final(self).errors() is None,
    {
        self.parse_error.push(error_msg.as_str());
        self.build_game_record();
    }
}

/// Law: once a kept tag has a value, later values of the same tag leave
/// the headers unchanged: the first value of a tag wins.
pub proof fn law_first_tag_value_wins(h: Seq<Seq<char>>, key: Seq<u8>, value: Seq<u8>)
    requires
        h.len() == 19,
        tag_slot(key) matches Some(i) && h[i].len() > 0,
    ensures
        with_tag(h, key, value) == h,
{
}

/// Law: a tag that is not kept leaves the headers unchanged.
pub proof fn law_unknown_tag_ignored(h: Seq<Seq<char>>, key: Seq<u8>, value: Seq<u8>)
    requires
        tag_slot(key) is None,
    ensures
        with_tag(h, key, value) == h,
{
}

/// A kept tag's slot lies among the 19 slots, from `i` on.
proof fn lemma_tag_slot_from_range(key: Seq<u8>, i: int)
    requires
        0 <= i,
    ensures
        tag_slot_from(key, i) matches Some(j) ==> i <= j < 19,
    decreases 19 - i,
{
    if i < 19 && !bytes_spell(key, tag_name(i)) {
        lemma_tag_slot_from_range(key, i + 1);
    }
}

/// The headers after the tags `tags`, in order.
pub open spec fn with_tags(h: Seq<Seq<char>>, tags: Seq<(Seq<u8>, Seq<u8>)>) -> Seq<Seq<char>>
    decreases tags.len(),
{
    if tags.len() == 0 {
        h
    } else {
        with_tag(with_tags(h, tags.drop_last()), tags.last().0, tags.last().1)
    }
}

/// What slot `i` holds after the tags `tags` from empty headers: once it
/// holds a value it keeps it; while empty, it takes the first non-empty
/// value of its tag, decoded leniently.
pub open spec fn first_kept(tags: Seq<(Seq<u8>, Seq<u8>)>, i: int) -> Seq<char>
    decreases tags.len(),
{
    if tags.len() == 0 {
        Seq::empty()
    } else {
        let f = first_kept(tags.drop_last(), i);
        if f.len() == 0 && tag_slot(tags.last().0) == Some(i) && tags.last().1.len() > 0 {
            utf8_lossy(tags.last().1)
        } else {
            f
        }
    }
}

/// Law: after any tags from empty headers, each slot holds the first
/// non-empty value of its tag (the first value wins), and tags that are not
/// kept change nothing.
pub proof fn law_headers_keep_first_values(h: Seq<Seq<char>>, tags: Seq<(Seq<u8>, Seq<u8>)>)
    requires
        all_empty(h),
    ensures
        with_tags(h, tags).len() == 19,
        forall|i: int| 0 <= i < 19 ==> #[trigger] with_tags(h, tags)[i] == first_kept(tags, i),
    decreases tags.len(),
{
    if tags.len() > 0 {
        law_headers_keep_first_values(h, tags.drop_last());
        let p = with_tags(h, tags.drop_last());
        let (k, v) = tags.last();
        lemma_tag_slot_from_range(k, 0);
        assert forall|i: int| 0 <= i < 19 implies #[trigger] with_tags(h, tags)[i] == first_kept(
            tags,
            i,
        ) by {
            assert(p[i] == first_kept(tags.drop_last(), i));
        }
    } else {
        assert forall|i: int| 0 <= i < 19 implies #[trigger] with_tags(h, tags)[i] == first_kept(
            tags,
            i,
        ) by {
            assert(h[i].len() == 0);
        }
    }
}

} // verus!
