//! Diagnostic lines and the level that lets them through (`CHESS_LOG`).
use vstd::prelude::*;
use crate::text::{self, append_str, string_of};

verus! {

/// How much is logged: errors only, or warnings too.
#[derive(Clone, Copy, Debug, PartialEq, Eq)]
pub enum Level {
    Error,
    Warn,
}

pub open spec fn level_rank(l: Level) -> int {
    match l {
        Level::Error => 0,
        Level::Warn => 1,
    }
}

/// A level name in any case: `warn` or `warning` is `Warn`; anything else,
/// `error` and `err` among it, is `Error`.
pub open spec fn level_named(s: Seq<char>) -> Level {
    let l = text::lowercase(s);
    if l == "warn"@ || l == "warning"@ {
        Level::Warn
    } else {
        Level::Error
    }
}

impl Level {
    pub fn from_str(s: &str) -> (r: Level)
        ensures
            r == level_named(s@),
    {
        let chars = text::chars_of(s);
        let l = text::to_lowercase(chars.as_slice());
        if text::chars_eq_str(l.as_slice(), "warn") || text::chars_eq_str(
            l.as_slice(),
            "warning",
        ) {
            Level::Warn
        } else {
            Level::Error
        }
    }

    /// The level used when none is configured.
    pub fn configured(setting: Option<&str>) -> (r: Level)
        ensures
            r == match setting {
                Some(s) => level_named(s@),
                None => Level::Error,
            },
    {
        match setting {
            Some(s) => Level::from_str(s),
            None => Level::Error,
        }
    }
}

/// The line logged for a message at `level` under `threshold`, if any.
pub open spec fn log_line(threshold: Level, level: Level, prefix: Seq<char>, msg: Seq<char>) -> Option<
    Seq<char>,
> {
    if level_rank(threshold) >= level_rank(level) {
        Some(prefix + ": "@ + msg)
    } else {
        None
    }
}

fn line(prefix: &str, msg: &str) -> (r: String)
    ensures
        r@ == prefix@ + ": "@ + msg@,
{
    let mut out: Vec<char> = Vec::new();
    append_str(&mut out, prefix);
    append_str(&mut out, ": ");
    append_str(&mut out, msg);
    string_of(out.as_slice())
}

/// The line to print for an error: always `ERROR: message`.
pub fn error(threshold: Level, msg: &str) -> (r: Option<String>)
    ensures
        crate::chess::timecontrol::opt_string_view(r) == log_line(
            threshold,
            Level::Error,
            "ERROR"@,
            msg@,
        ),
{
    Some(line("ERROR", msg))
}

/// The line to print for a warning, `WARN: message`, when warnings are
/// logged.
pub fn warn(threshold: Level, msg: &str) -> (r: Option<String>)
    ensures
        crate::chess::timecontrol::opt_string_view(r) == log_line(
            threshold,
            Level::Warn,
            "WARN"@,
            msg@,
        ),
{
    match threshold {
        Level::Warn => Some(line("WARN", msg)),
        Level::Error => None,
    }
}

} // verus!
