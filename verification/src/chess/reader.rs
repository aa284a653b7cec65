//! The `read_pgn` table function: its parameters, its columns and how a
//! game becomes a row.
use vstd::prelude::*;
use std::path::PathBuf;
use crate::chess::error::{pushed, ErrorAccumulator};
use crate::chess::timecontrol::opt_string_view;
use crate::chess::types::{GameModel, GameRecord};
use crate::text::{self, append_str, string_of};

verus! {

#[verifier::external_type_specification]
#[verifier::external_body]
pub struct ExPathBuf(std::path::PathBuf);

/// How the input files are stored.
#[derive(Clone, Copy, Debug, Eq, PartialEq)]
pub enum CompressionMode {
    Plain,
    Zstd,
}

/// Index of the path-pattern positional parameter.
pub const PATH_PATTERN_PARAM_INDEX: u64 = 0;

/// Rows written per output chunk.
pub const ROWS_PER_CHUNK: usize = 2048;

/// Number of columns of `read_pgn`.
pub const READ_PGN_COLUMN_COUNT: usize = 18;

/// The message for an unsupported compression value (already trimmed).
pub open spec fn compression_error(value: Seq<char>) -> Seq<char> {
    "Invalid compression value '"@ + value + "'. Supported values: 'zstd' or NULL/omitted."@
}

/// `zstd` in any ASCII case after trimming; any other value is an error.
pub open spec fn compression_parse(raw: Seq<char>) -> Result<CompressionMode, Seq<char>> {
    let normalized = text::trim(raw);
    if normalized.len() == 0 {
        Err(compression_error(Seq::empty()))
    } else if text::eq_ignore_ascii_case(normalized, "zstd"@) {
        Ok(CompressionMode::Zstd)
    } else {
        Err(compression_error(normalized))
    }
}

pub open spec fn result_view(r: Result<CompressionMode, String>) -> Result<CompressionMode, Seq<char>> {
    match r {
        Ok(m) => Ok(m),
        Err(e) => Err(e@),
    }
}

fn compression_error_exec(value: &[char]) -> (r: String)
    ensures
        r@ == compression_error(value@),
{
    let mut out: Vec<char> = Vec::new();
    append_str(&mut out, "Invalid compression value '");
    text::append_chars(&mut out, value);
    append_str(&mut out, "'. Supported values: 'zstd' or NULL/omitted.");
    string_of(out.as_slice())
}

impl CompressionMode {
    pub fn parse(raw: &str) -> (r: Result<CompressionMode, String>)
        ensures
            result_view(r) == compression_parse(raw@),
    {
        let chars = text::chars_of(raw);
        let normalized = text::trim_chars(chars.as_slice());
        if normalized.len() == 0 {
            let empty: Vec<char> = Vec::new();
            assert(empty@ =~= Seq::<char>::empty());
            return Err(compression_error_exec(empty.as_slice()));
        }
        if text::eq_ignore_ascii_case_exec(normalized.as_slice(), "zstd") {
            Ok(CompressionMode::Zstd)
        } else {
            Err(compression_error_exec(normalized.as_slice()))
        }
    }
}

/// The compression named parameter: absent or NULL is plain, the text
/// `null` in any case is plain, anything else is parsed.
pub open spec fn resolve_compression(param: Option<Option<Seq<char>>>) -> Result<
    CompressionMode,
    Seq<char>,
> {
    match param {
        None => Ok(CompressionMode::Plain),
        Some(None) => Ok(CompressionMode::Plain),
        Some(Some(raw)) => if text::eq_ignore_ascii_case(text::trim(raw), "null"@) {
            Ok(CompressionMode::Plain)
        } else {
            compression_parse(text::trim(raw))
        },
    }
}

pub open spec fn param_view(p: Option<Option<String>>) -> Option<Option<Seq<char>>> {
    match p {
        None => None,
        Some(None) => Some(None),
        Some(Some(s)) => Some(Some(s@)),
    }
}

/// The column types of `read_pgn`.
#[derive(Clone, Copy, Debug, Eq, PartialEq)]
pub enum ReadPgnLogicalType {
    Varchar,
    UInteger,
    Date,
    TimeTz,
}

/// A column of `read_pgn`: its name and type.
#[derive(Clone, Copy, Debug)]
pub struct ReadPgnColumnDef {
    pub name: &'static str,
    pub logical_type: ReadPgnLogicalType,
}

/// The columns of `read_pgn`, in order.
#[derive(Clone, Copy, Debug, Eq, PartialEq)]
pub enum ReadPgnColumn {
    Event,
    Site,
    White,
    Black,
    Result,
    WhiteTitle,
    BlackTitle,
    WhiteElo,
    BlackElo,
    UtcDate,
    UtcTime,
    Eco,
    Opening,
    Termination,
    TimeControl,
    Movetext,
    ParseError,
    Source,
}

pub open spec fn column_index(c: ReadPgnColumn) -> int {
    match c {
        ReadPgnColumn::Event => 0,
        ReadPgnColumn::Site => 1,
        ReadPgnColumn::White => 2,
        ReadPgnColumn::Black => 3,
        ReadPgnColumn::Result => 4,
        ReadPgnColumn::WhiteTitle => 5,
        ReadPgnColumn::BlackTitle => 6,
        ReadPgnColumn::WhiteElo => 7,
        ReadPgnColumn::BlackElo => 8,
        ReadPgnColumn::UtcDate => 9,
        ReadPgnColumn::UtcTime => 10,
        ReadPgnColumn::Eco => 11,
        ReadPgnColumn::Opening => 12,
        ReadPgnColumn::Termination => 13,
        ReadPgnColumn::TimeControl => 14,
        ReadPgnColumn::Movetext => 15,
        ReadPgnColumn::ParseError => 16,
        ReadPgnColumn::Source => 17,
    }
}

pub open spec fn column_name(c: ReadPgnColumn) -> Seq<char> {
    match c {
        ReadPgnColumn::Event => "Event"@,
        ReadPgnColumn::Site => "Site"@,
        ReadPgnColumn::White => "White"@,
        ReadPgnColumn::Black => "Black"@,
        ReadPgnColumn::Result => "Result"@,
        ReadPgnColumn::WhiteTitle => "WhiteTitle"@,
        ReadPgnColumn::BlackTitle => "BlackTitle"@,
        ReadPgnColumn::WhiteElo => "WhiteElo"@,
        ReadPgnColumn::BlackElo => "BlackElo"@,
        ReadPgnColumn::UtcDate => "UTCDate"@,
        ReadPgnColumn::UtcTime => "UTCTime"@,
        ReadPgnColumn::Eco => "ECO"@,
        ReadPgnColumn::Opening => "Opening"@,
        ReadPgnColumn::Termination => "Termination"@,
        ReadPgnColumn::TimeControl => "TimeControl"@,
        ReadPgnColumn::Movetext => "movetext"@,
        ReadPgnColumn::ParseError => "parse_error"@,
        ReadPgnColumn::Source => "Source"@,
    }
}

pub open spec fn column_type(c: ReadPgnColumn) -> ReadPgnLogicalType {
    match c {
        ReadPgnColumn::WhiteElo | ReadPgnColumn::BlackElo => ReadPgnLogicalType::UInteger,
        ReadPgnColumn::UtcDate => ReadPgnLogicalType::Date,
        ReadPgnColumn::UtcTime => ReadPgnLogicalType::TimeTz,
        _ => ReadPgnLogicalType::Varchar,
    }
}

impl ReadPgnColumn {
    pub fn index(self) -> (r: usize)
        ensures
            r == column_index(self),
    {
        match self {
            ReadPgnColumn::Event => 0,
            ReadPgnColumn::Site => 1,
            ReadPgnColumn::White => 2,
            ReadPgnColumn::Black => 3,
            ReadPgnColumn::Result => 4,
            ReadPgnColumn::WhiteTitle => 5,
            ReadPgnColumn::BlackTitle => 6,
            ReadPgnColumn::WhiteElo => 7,
            ReadPgnColumn::BlackElo => 8,
            ReadPgnColumn::UtcDate => 9,
            ReadPgnColumn::UtcTime => 10,
            ReadPgnColumn::Eco => 11,
            ReadPgnColumn::Opening => 12,
            ReadPgnColumn::Termination => 13,
            ReadPgnColumn::TimeControl => 14,
            ReadPgnColumn::Movetext => 15,
            ReadPgnColumn::ParseError => 16,
            ReadPgnColumn::Source => 17,
        }
    }

    pub fn name(self) -> (r: &'static str)
        ensures
            r@ == column_name(self),
    {
        match self {
            ReadPgnColumn::Event => "Event",
            ReadPgnColumn::Site => "Site",
            ReadPgnColumn::White => "White",
            ReadPgnColumn::Black => "Black",
            ReadPgnColumn::Result => "Result",
            ReadPgnColumn::WhiteTitle => "WhiteTitle",
            ReadPgnColumn::BlackTitle => "BlackTitle",
            ReadPgnColumn::WhiteElo => "WhiteElo",
            ReadPgnColumn::BlackElo => "BlackElo",
            ReadPgnColumn::UtcDate => "UTCDate",
            ReadPgnColumn::UtcTime => "UTCTime",
            ReadPgnColumn::Eco => "ECO",
            ReadPgnColumn::Opening => "Opening",
            ReadPgnColumn::Termination => "Termination",
            ReadPgnColumn::TimeControl => "TimeControl",
            ReadPgnColumn::Movetext => "movetext",
            ReadPgnColumn::ParseError => "parse_error",
            ReadPgnColumn::Source => "Source",
        }
    }

    pub fn logical_type(self) -> (r: ReadPgnLogicalType)
        ensures
            r == column_type(self),
    {
        match self {
            ReadPgnColumn::WhiteElo | ReadPgnColumn::BlackElo => ReadPgnLogicalType::UInteger,
            ReadPgnColumn::UtcDate => ReadPgnLogicalType::Date,
            ReadPgnColumn::UtcTime => ReadPgnLogicalType::TimeTz,
            _ => ReadPgnLogicalType::Varchar,
        }
    }

    pub fn def(self) -> (r: ReadPgnColumnDef)
        ensures
            r.name@ == column_name(self),
            r.logical_type == column_type(self),
    {
        ReadPgnColumnDef { name: self.name(), logical_type: self.logical_type() }
    }
}

/// The columns in table order.
pub open spec fn all_columns() -> Seq<ReadPgnColumn> {
    seq![
        ReadPgnColumn::Event,
        ReadPgnColumn::Site,
        ReadPgnColumn::White,
        ReadPgnColumn::Black,
        ReadPgnColumn::Result,
        ReadPgnColumn::WhiteTitle,
        ReadPgnColumn::BlackTitle,
        ReadPgnColumn::WhiteElo,
        ReadPgnColumn::BlackElo,
        ReadPgnColumn::UtcDate,
        ReadPgnColumn::UtcTime,
        ReadPgnColumn::Eco,
        ReadPgnColumn::Opening,
        ReadPgnColumn::Termination,
        ReadPgnColumn::TimeControl,
        ReadPgnColumn::Movetext,
        ReadPgnColumn::ParseError,
        ReadPgnColumn::Source,
    ]
}

/// The column definitions of `read_pgn`, in table order.
pub fn read_pgn_columns() -> (r: Vec<ReadPgnColumnDef>)
    ensures
        r@.len() == READ_PGN_COLUMN_COUNT,
        forall|i: int|
            0 <= i < r@.len() ==> (#[trigger] r@[i]).name@ == column_name(all_columns()[i])
                && r@[i].logical_type == column_type(all_columns()[i]),
        forall|i: int| 0 <= i < r@.len() ==> column_index(#[trigger] all_columns()[i]) == i,
{
    let mut v: Vec<ReadPgnColumnDef> = Vec::new();
    v.push(ReadPgnColumn::Event.def());
    v.push(ReadPgnColumn::Site.def());
    v.push(ReadPgnColumn::White.def());
    v.push(ReadPgnColumn::Black.def());
    v.push(ReadPgnColumn::Result.def());
    v.push(ReadPgnColumn::WhiteTitle.def());
    v.push(ReadPgnColumn::BlackTitle.def());
    v.push(ReadPgnColumn::WhiteElo.def());
    v.push(ReadPgnColumn::BlackElo.def());
    v.push(ReadPgnColumn::UtcDate.def());
    v.push(ReadPgnColumn::UtcTime.def());
    v.push(ReadPgnColumn::Eco.def());
    v.push(ReadPgnColumn::Opening.def());
    v.push(ReadPgnColumn::Termination.def());
    v.push(ReadPgnColumn::TimeControl.def());
    v.push(ReadPgnColumn::Movetext.def());
    v.push(ReadPgnColumn::ParseError.def());
    v.push(ReadPgnColumn::Source.def());
    v
}

/// Interior NUL characters replaced by spaces.
pub open spec fn without_nul(s: Seq<char>) -> Seq<char> {
    s.map_values(|c: char| if c == '\0' { ' ' } else { c })
}

/// The message recorded when a field held a NUL character.
pub open spec fn nul_message(field: Seq<char>) -> Seq<char> {
    "Sanitized interior NUL in "@ + field
}

fn without_nul_exec(s: &[char]) -> (r: Vec<char>)
    ensures
        r@ == without_nul(s@),
{
    let mut out: Vec<char> = Vec::new();
    let mut i: usize = 0;
    while i < s.len()
        invariant
            i <= s@.len(),
            out@ == without_nul(s@.take(i as int)),
        decreases s.len() - i,
    {
        let c = s[i];
        if c == '\0' {
            out.push(' ');
        } else {
            out.push(c);
        }
        assert(without_nul(s@.take(i + 1)) =~= without_nul(s@.take(i as int)).push(
            if c == '\0' { ' ' } else { c },
        ));
        i += 1;
    }
    assert(s@.take(s@.len() as int) =~= s@);
    out
}

/// A value made safe for a C string: NULs become spaces, and when there
/// was one a message naming the field is recorded.
pub fn sanitize_for_cstring(value: &str, field_name: &str, parse_error: &mut ErrorAccumulator) -> (r:
    String)
    ensures
        r@ == without_nul(value@),
        final(parse_error)@ == if value@.contains('\0') {
            pushed(old(parse_error)@, nul_message(field_name@))
        } else {
            old(parse_error)@
        },
{
    let chars = text::chars_of(value);
    if text::contains_char(chars.as_slice(), '\0') {
        let mut msg: Vec<char> = Vec::new();
        append_str(&mut msg, "Sanitized interior NUL in ");
        append_str(&mut msg, field_name);
        let m = string_of(msg.as_slice());
        parse_error.push(m.as_str());
        string_of(without_nul_exec(chars.as_slice()).as_slice())
    } else {
        assert(without_nul(value@) =~= value@);
        text::string_from(value)
    }
}

/// A value made safe for a C string, recording nothing.
pub fn sanitize_for_cstring_silent(value: &str) -> (r: String)
    ensures
        r@ == without_nul(value@),
{
    let chars = text::chars_of(value);
    string_of(without_nul_exec(chars.as_slice()).as_slice())
}

/// The files to read and how they are stored.
pub struct ReadPgnBindData {
    pub paths: Vec<PathBuf>,
    pub compression: CompressionMode,
}

/// The `read_pgn` table function.
pub struct ReadPgnVTab;

/// A path pattern with `*` or `?` is expanded as a glob; any other is one
/// file.
pub open spec fn is_glob_pattern(pattern: Seq<char>) -> bool {
    pattern.contains('*') || pattern.contains('?')
}

impl ReadPgnVTab {
    /// Whether the path pattern names several files through a glob.
    pub fn is_glob_pattern(pattern: &str) -> (r: bool)
        ensures
            r == is_glob_pattern(pattern@),
    {
        let p = text::chars_of(pattern);
        text::contains_char(p.as_slice(), '*') || text::contains_char(p.as_slice(), '?')
    }

    /// The compression mode from the `compression` named parameter.
    pub fn resolve_compression_mode(param: Option<Option<String>>) -> (r: Result<
        CompressionMode,
        String,
    >)
        ensures
            result_view(r) == resolve_compression(param_view(param)),
    {
        match param {
            None => Ok(CompressionMode::Plain),
            Some(None) => Ok(CompressionMode::Plain),
            Some(Some(raw)) => {
                let chars = text::chars_of(raw.as_str());
                let normalized = text::trim_chars(chars.as_slice());
                if text::eq_ignore_ascii_case_exec(normalized.as_slice(), "null") {
                    Ok(CompressionMode::Plain)
                } else {
                    let n = string_of(normalized.as_slice());
                    CompressionMode::parse(n.as_str())
                }
            },
        }
    }
}

/// The errors after writing an optional text column: a value with a NUL
/// records a message naming the column.
pub open spec fn sanitize_step(acc: Option<Seq<char>>, v: Option<Seq<char>>, column: Seq<char>) -> Option<
    Seq<char>,
> {
    match v {
        Some(s) => if s.contains('\0') {
            pushed(acc, nul_message(column))
        } else {
            acc
        },
        None => acc,
    }
}

pub open spec fn opt_without_nul(v: Option<Seq<char>>) -> Option<Seq<char>> {
    match v {
        Some(s) => Some(without_nul(s)),
        None => None,
    }
}

/// The errors of a row: the game's own, then one per text column holding a
/// NUL, in column order (movetext and source last).
pub open spec fn row_errors(g: GameModel) -> Option<Seq<char>> {
    let a0 = g.parse_error;
    let a1 = sanitize_step(a0, g.event, "Event"@);
    let a2 = sanitize_step(a1, g.site, "Site"@);
    let a3 = sanitize_step(a2, g.white, "White"@);
    let a4 = sanitize_step(a3, g.black, "Black"@);
    let a5 = sanitize_step(a4, g.result, "Result"@);
    let a6 = sanitize_step(a5, g.white_title, "WhiteTitle"@);
    let a7 = sanitize_step(a6, g.black_title, "BlackTitle"@);
    let a8 = sanitize_step(a7, g.eco, "ECO"@);
    let a9 = sanitize_step(a8, g.opening, "Opening"@);
    let a10 = sanitize_step(a9, g.termination, "Termination"@);
    let a11 = sanitize_step(a10, g.time_control, "TimeControl"@);
    let a12 = sanitize_step(a11, Some(g.movetext), "movetext"@);
    sanitize_step(a12, g.source, "Source"@)
}

/// The values written for a game: every text made safe for C strings, the
/// typed columns as they are, and the `parse_error` column holding the
/// row's errors (itself made safe), NULL when there are none.
pub open spec fn row_values(g: GameModel) -> GameModel {
    GameModel {
        event: opt_without_nul(g.event),
        site: opt_without_nul(g.site),
        source: opt_without_nul(g.source),
        white: opt_without_nul(g.white),
        black: opt_without_nul(g.black),
        result: opt_without_nul(g.result),
        white_title: opt_without_nul(g.white_title),
        black_title: opt_without_nul(g.black_title),
        white_elo: g.white_elo,
        black_elo: g.black_elo,
        utc_date: g.utc_date,
        utc_time: g.utc_time,
        eco: opt_without_nul(g.eco),
        opening: opt_without_nul(g.opening),
        termination: opt_without_nul(g.termination),
        time_control: opt_without_nul(g.time_control),
        movetext: without_nul(g.movetext),
        parse_error: opt_without_nul(row_errors(g)),
    }
}

fn sanitize_opt(value: &Option<String>, column: ReadPgnColumn, acc: &mut ErrorAccumulator) -> (r:
    Option<String>)
    ensures
        opt_string_view(r) == opt_without_nul(opt_string_view(*value)),
        final(acc)@ == sanitize_step(old(acc)@, opt_string_view(*value), column_name(column)),
{
    match value {
        Some(v) => Some(sanitize_for_cstring(v.as_str(), column.name(), acc)),
        None => None,
    }
}

/// The values of a game's row (see `row_values`).
pub fn prepare_row(game: &GameRecord) -> (r: GameRecord)
    ensures
        r@ == row_values(game@),
{
    let mut errors = ErrorAccumulator::default();
    match &game.parse_error {
        Some(p) => errors.push(p.as_str()),
        None => {},
    }
    assert(errors@ == game@.parse_error);
    let event = sanitize_opt(&game.event, ReadPgnColumn::Event, &mut errors);
    let site = sanitize_opt(&game.site, ReadPgnColumn::Site, &mut errors);
    let white = sanitize_opt(&game.white, ReadPgnColumn::White, &mut errors);
    let black = sanitize_opt(&game.black, ReadPgnColumn::Black, &mut errors);
    let result = sanitize_opt(&game.result, ReadPgnColumn::Result, &mut errors);
    let white_title = sanitize_opt(&game.white_title, ReadPgnColumn::WhiteTitle, &mut errors);
    let black_title = sanitize_opt(&game.black_title, ReadPgnColumn::BlackTitle, &mut errors);
    let eco = sanitize_opt(&game.eco, ReadPgnColumn::Eco, &mut errors);
    let opening = sanitize_opt(&game.opening, ReadPgnColumn::Opening, &mut errors);
    let termination = sanitize_opt(&game.termination, ReadPgnColumn::Termination, &mut errors);
    let time_control = sanitize_opt(&game.time_control, ReadPgnColumn::TimeControl, &mut errors);
    let movetext = sanitize_for_cstring(
        game.movetext.as_str(),
        ReadPgnColumn::Movetext.name(),
        &mut errors,
    );
    let source = sanitize_opt(&game.source, ReadPgnColumn::Source, &mut errors);
    let parse_error = if errors.is_empty() {
        None
    } else {
        match errors.take() {
            Some(e) => Some(sanitize_for_cstring_silent(e.as_str())),
            None => None,
        }
    };
    GameRecord {
        event,
        site,
        source,
        white,
        black,
        result,
        white_title,
        black_title,
        white_elo: game.white_elo,
        black_elo: game.black_elo,
        utc_date: game.utc_date,
        utc_time: game.utc_time,
        eco,
        opening,
        termination,
        time_control,
        movetext,
        parse_error,
    }
}

/// What to do when a file cannot be opened.
#[derive(Clone, Copy, Debug, PartialEq, Eq)]
pub enum OpenFailureAction {
    /// The only file: the scan fails with the error.
    Fail,
    /// One of several files: warn and go on with the next.
    WarnAndSkip,
}

pub fn open_failure_action(n_paths: usize) -> (r: OpenFailureAction)
    ensures
        r == if n_paths == 1 {
            OpenFailureAction::Fail
        } else {
            OpenFailureAction::WarnAndSkip
        },
{
    if n_paths == 1 {
        OpenFailureAction::Fail
    } else {
        OpenFailureAction::WarnAndSkip
    }
}

/// Claims the next file to read, if any is left.
pub fn claim_path(next_path_idx: &mut usize, n_paths: usize) -> (r: Option<usize>)
    ensures
        *old(next_path_idx) < n_paths ==> r == Some(*old(next_path_idx)) && *final(next_path_idx)
            == *old(next_path_idx) + 1,
        *old(next_path_idx) >= n_paths ==> r is None && *final(next_path_idx) == *old(
            next_path_idx,
        ),
{
    if *next_path_idx < n_paths {
        let idx = *next_path_idx;
        *next_path_idx = idx + 1;
        Some(idx)
    } else {
        None
    }
}

/// `Parser-stage error: stage=read_game; file='PATH'; game_index=N; error=E`.
pub open spec fn read_error_message(path: Seq<char>, game_index: nat, error: Seq<char>) -> Seq<char> {
    "Parser-stage error: stage=read_game; file='"@ + path + "'; game_index="@ + text::dec(game_index)
        + "; error="@ + error
}

pub fn read_error_text(path: &str, game_index: usize, error: &str) -> (r: String)
    ensures
        r@ == read_error_message(path@, game_index as nat, error@),
{
    let mut out: Vec<char> = Vec::new();
    append_str(&mut out, "Parser-stage error: stage=read_game; file='");
    append_str(&mut out, path);
    append_str(&mut out, "'; game_index=");
    text::push_decimal(&mut out, game_index as u64);
    append_str(&mut out, "; error=");
    append_str(&mut out, error);
    string_of(out.as_slice())
}

/// Law: a sanitized value holds no NUL character.
pub proof fn law_sanitized_has_no_nul(s: Seq<char>)
    ensures
        !without_nul(s).contains('\0'),
{
    assert forall|i: int| 0 <= i < without_nul(s).len() implies without_nul(s)[i] != '\0' by {}
}

pub open spec fn opt_nul_free(v: Option<Seq<char>>) -> bool {
    v matches Some(s) ==> !s.contains('\0')
}

/// Law: every text written for a row, its `parse_error` column included,
/// is free of NUL characters, so it fits a C string.
pub proof fn law_row_values_nul_free(g: GameModel)
    ensures
        opt_nul_free(row_values(g).event) && opt_nul_free(row_values(g).site) && opt_nul_free(
            row_values(g).source,
        ) && opt_nul_free(row_values(g).white) && opt_nul_free(row_values(g).black)
            && opt_nul_free(row_values(g).result) && opt_nul_free(row_values(g).white_title)
            && opt_nul_free(row_values(g).black_title) && opt_nul_free(row_values(g).eco)
            && opt_nul_free(row_values(g).opening) && opt_nul_free(row_values(g).termination)
            && opt_nul_free(row_values(g).time_control) && !row_values(g).movetext.contains('\0')
            && opt_nul_free(row_values(g).parse_error),
{
    let r = row_values(g);
    match g.event { Some(s) => law_sanitized_has_no_nul(s), None => {} }
    match g.site { Some(s) => law_sanitized_has_no_nul(s), None => {} }
    match g.source { Some(s) => law_sanitized_has_no_nul(s), None => {} }
    match g.white { Some(s) => law_sanitized_has_no_nul(s), None => {} }
    match g.black { Some(s) => law_sanitized_has_no_nul(s), None => {} }
    match g.result { Some(s) => law_sanitized_has_no_nul(s), None => {} }
    match g.white_title { Some(s) => law_sanitized_has_no_nul(s), None => {} }
    match g.black_title { Some(s) => law_sanitized_has_no_nul(s), None => {} }
    match g.eco { Some(s) => law_sanitized_has_no_nul(s), None => {} }
    match g.opening { Some(s) => law_sanitized_has_no_nul(s), None => {} }
    match g.termination { Some(s) => law_sanitized_has_no_nul(s), None => {} }
    match g.time_control { Some(s) => law_sanitized_has_no_nul(s), None => {} }
    law_sanitized_has_no_nul(g.movetext);
    match row_errors(g) { Some(s) => law_sanitized_has_no_nul(s), None => {} }
}

pub open spec fn opt_has_nul(v: Option<Seq<char>>) -> bool {
    v matches Some(s) && s.contains('\0')
}

/// Law: a row's `parse_error` is NULL exactly when the game was read
/// without error and none of its texts held a NUL character.
pub proof fn law_parse_error_null_iff_clean(g: GameModel)
    ensures
        row_values(g).parse_error is None <==> (g.parse_error is None && !opt_has_nul(g.event)
            && !opt_has_nul(g.site) && !opt_has_nul(g.white) && !opt_has_nul(g.black)
            && !opt_has_nul(g.result) && !opt_has_nul(g.white_title) && !opt_has_nul(
            g.black_title,
        ) && !opt_has_nul(g.eco) && !opt_has_nul(g.opening) && !opt_has_nul(g.termination)
            && !opt_has_nul(g.time_control) && !g.movetext.contains('\0') && !opt_has_nul(
            g.source,
        )),
{
}

} // verus!
