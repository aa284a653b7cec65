//! JSON string encoding through `serde_json`.
use vstd::prelude::*;
use crate::chess::timecontrol::string_views;
use crate::text;

verus! {

pub open spec fn hex_digit(n: int) -> char {
    if n < 10 {
        ('0' as int + n) as char
    } else {
        ('a' as int + n - 10) as char
    }
}

/// How `serde_json` writes one character inside a string: quote and
/// backslash escaped, the short escapes for backspace, tab, newline, form
/// feed and carriage return, other control characters as `\u00xx`.
pub open spec fn escape_char(c: char) -> Seq<char> {
    if c == '"' {
        seq!['\\', '"']
    } else if c == '\\' {
        seq!['\\', '\\']
    } else if c == '\u{8}' {
        seq!['\\', 'b']
    } else if c == '\t' {
        seq!['\\', 't']
    } else if c == '\n' {
        seq!['\\', 'n']
    } else if c == '\u{c}' {
        seq!['\\', 'f']
    } else if c == '\r' {
        seq!['\\', 'r']
    } else if (c as int) < 0x20 {
        seq!['\\', 'u', '0', '0', hex_digit(c as int / 16), hex_digit(c as int % 16)]
    } else {
        seq![c]
    }
}

pub open spec fn escape_str(s: Seq<char>) -> Seq<char>
    decreases s.len(),
{
    if s.len() == 0 {
        Seq::empty()
    } else {
        escape_str(s.drop_last()) + escape_char(s.last())
    }
}

/// A string as a JSON string literal.
pub open spec fn json_string(s: Seq<char>) -> Seq<char> {
    seq!['"'] + escape_str(s) + seq!['"']
}

/// A list of strings as a compact JSON array.
pub open spec fn json_string_array(v: Seq<Seq<char>>) -> Seq<char> {
    seq!['['] + text::join(v.map_values(|s: Seq<char>| json_string(s)), seq![',']) + seq![']']
}

/// Calls `serde_json::to_string` on a string. Serializing a string into
/// memory cannot fail: the result is always `Some`, the JSON string literal
/// of the text (unproved).
#[verifier::external_body]
pub(crate) fn json_string_of(s: &String) -> (r: Option<String>)
    ensures
        r is Some,
        r.unwrap()@ == json_string(s@),
{
    serde_json::to_string(s).ok()
}

/// Calls `serde_json::to_string` on a list of strings: always `Some`, the
/// compact JSON array of the string literals (unproved).
#[verifier::external_body]
pub(crate) fn json_string_list_of(v: &Vec<String>) -> (r: Option<String>)
    ensures
        r is Some,
        r.unwrap()@ == json_string_array(string_views(v@)),
{
    serde_json::to_string(v).ok()
}

} // verus!
