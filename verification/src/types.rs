//! One game as a row of the plain PGN table.
use vstd::prelude::*;
use crate::chess::timecontrol::opt_string_view;

verus! {

/// Stores parsed game data from PGN, following the Lichess dataset schema.
#[derive(Debug, Clone)]
pub struct GameRecord {
    pub event: Option<String>,
    pub site: Option<String>,
    pub white: Option<String>,
    pub black: Option<String>,
    pub result: Option<String>,
    pub white_title: Option<String>,
    pub black_title: Option<String>,
    pub white_elo: Option<i32>,
    pub black_elo: Option<i32>,
    pub utc_date: Option<String>,
    pub utc_time: Option<String>,
    pub eco: Option<String>,
    pub opening: Option<String>,
    pub termination: Option<String>,
    pub time_control: Option<String>,
    pub movetext: String,
    /// `None` for a game read without error, else the error message.
    pub parse_error: Option<String>,
}

pub struct RecordModel {
    pub event: Option<Seq<char>>,
    pub site: Option<Seq<char>>,
    pub white: Option<Seq<char>>,
    pub black: Option<Seq<char>>,
    pub result: Option<Seq<char>>,
    pub white_title: Option<Seq<char>>,
    pub black_title: Option<Seq<char>>,
    pub white_elo: Option<i32>,
    pub black_elo: Option<i32>,
    pub utc_date: Option<Seq<char>>,
    pub utc_time: Option<Seq<char>>,
    pub eco: Option<Seq<char>>,
    pub opening: Option<Seq<char>>,
    pub termination: Option<Seq<char>>,
    pub time_control: Option<Seq<char>>,
    pub movetext: Seq<char>,
    pub parse_error: Option<Seq<char>>,
}

impl View for GameRecord {
    type V = RecordModel;

    open spec fn view(&self) -> RecordModel {
        RecordModel {
            event: opt_string_view(self.event),
            site: opt_string_view(self.site),
            white: opt_string_view(self.white),
            black: opt_string_view(self.black),
            result: opt_string_view(self.result),
            white_title: opt_string_view(self.white_title),
            black_title: opt_string_view(self.black_title),
            white_elo: self.white_elo,
            black_elo: self.black_elo,
            utc_date: opt_string_view(self.utc_date),
            utc_time: opt_string_view(self.utc_time),
            eco: opt_string_view(self.eco),
            opening: opt_string_view(self.opening),
            termination: opt_string_view(self.termination),
            time_control: opt_string_view(self.time_control),
            movetext: self.movetext@,
            parse_error: opt_string_view(self.parse_error),
        }
    }
}

impl Default for GameRecord {
    fn default() -> (r: Self)
        ensures
            r@.event is None && r@.site is None && r@.white is None && r@.black is None
                && r@.result is None && r@.white_title is None && r@.black_title is None
                && r@.white_elo is None && r@.black_elo is None && r@.utc_date is None
                && r@.utc_time is None && r@.eco is None && r@.opening is None && r@.termination
                is None && r@.time_control is None && r@.movetext.len() == 0 && r@.parse_error
                is None,
    {
        GameRecord {
            event: None,
            site: None,
            white: None,
            black: None,
            result: None,
            white_title: None,
            black_title: None,
            white_elo: None,
            black_elo: None,
            utc_date: None,
            utc_time: None,
            eco: None,
            opening: None,
            termination: None,
            time_control: None,
            movetext: String::new(),
            parse_error: None,
        }
    }
}

} // verus!
