//! JSON rendering of a parsed time control.
use vstd::prelude::*;
use crate::json::{json_string, json_string_array, json_string_list_of, json_string_of};
use crate::text::{self, append_chars, append_str, push_decimal};
use super::{Mode, ParsedTimeControl, Period, TimeControlModel};

verus! {

pub open spec fn mode_name(m: Mode) -> Seq<char> {
    match m {
        Mode::Unknown => "unknown"@,
        Mode::Unlimited => "unlimited"@,
        Mode::Sandclock => "sandclock"@,
        Mode::Normal => "normal"@,
    }
}

pub open spec fn bool_text(b: bool) -> Seq<char> {
    if b {
        "true"@
    } else {
        "false"@
    }
}

/// `{"moves":M,"base":B,"increment":I}`, the optional keys only when set.
pub open spec fn period_json(p: Period) -> Seq<char> {
    "{"@ + (match p.moves {
        Some(m) => "\"moves\":"@ + text::dec(m as nat) + ","@,
        None => Seq::empty(),
    }) + "\"base\":"@ + text::dec(p.base_seconds as nat) + (match p.increment_seconds {
        Some(i) => ",\"increment\":"@ + text::dec(i as nat),
        None => Seq::empty(),
    }) + "}"@
}

/// The JSON object of a parsed time control, keys in a fixed order.
pub open spec fn timecontrol_json(m: TimeControlModel) -> Seq<char> {
    "{\"raw\":"@ + json_string(m.raw) + ",\"normalized\":"@ + (match m.normalized {
        Some(n) => json_string(n),
        None => "null"@,
    }) + ",\"mode\":\""@ + mode_name(m.mode) + "\",\"periods\":["@ + text::join(
        m.periods.map_values(|p: Period| period_json(p)),
        ","@,
    ) + "],\"warnings\":"@ + json_string_array(m.warnings) + ",\"inferred\":"@ + bool_text(
        m.inferred,
    ) + ",\"overflow\":"@ + bool_text(m.overflow) + "}"@
}

fn period_json_exec(p: &Period) -> (r: Vec<char>)
    ensures
        r@ == period_json(*p),
{
    let mut out: Vec<char> = Vec::new();
    append_str(&mut out, "{");
    match p.moves {
        Some(m) => {
            append_str(&mut out, "\"moves\":");
            push_decimal(&mut out, m as u64);
            append_str(&mut out, ",");
        },
        None => {},
    }
    append_str(&mut out, "\"base\":");
    push_decimal(&mut out, p.base_seconds as u64);
    match p.increment_seconds {
        Some(i) => {
            append_str(&mut out, ",\"increment\":");
            push_decimal(&mut out, i as u64);
        },
        None => {},
    }
    append_str(&mut out, "}");
    assert(out@ =~= period_json(*p));
    out
}

/// A string written as a JSON literal; when encoding fails, the text between
/// plain quotes.
fn quoted(s: &String) -> (r: Vec<char>)
    ensures
        r@ == json_string(s@),
{
    match json_string_of(s) {
        Some(j) => text::chars_of(j.as_str()),
        None => {
            let mut out: Vec<char> = Vec::new();
            out.push('"');
            append_str(&mut out, s.as_str());
            out.push('"');
            out
        },
    }
}

pub fn render(parsed: &ParsedTimeControl) -> (r: String)
    ensures
        r@ == timecontrol_json(parsed@),
{
    let mut parts: Vec<Vec<char>> = Vec::new();
    let mut i: usize = 0;
    while i < parsed.periods.len()
        invariant
            i <= parsed.periods@.len(),
            text::views(parts@) == parsed.periods@.map_values(|p: Period| period_json(p)).take(
                i as int,
            ),
        decreases parsed.periods.len() - i,
    {
        let ghost before = text::views(parts@);
        parts.push(period_json_exec(&parsed.periods[i]));
        assert(text::views(parts@) =~= before.push(period_json(parsed.periods@[i as int])));
        assert(text::views(parts@) =~= parsed.periods@.map_values(|p: Period| period_json(p)).take(
            i + 1,
        ));
        i += 1;
    }
    assert(parsed.periods@.map_values(|p: Period| period_json(p)).take(
        parsed.periods@.len() as int,
    ) =~= parsed.periods@.map_values(|p: Period| period_json(p)));
    let comma = text::chars_of(",");
    let periods_json = text::join_exec(&parts, comma.as_slice());
    let mut out: Vec<char> = Vec::new();
    append_str(&mut out, "{\"raw\":");
    let raw_json = quoted(&parsed.raw);
    append_chars(&mut out, raw_json.as_slice());
    append_str(&mut out, ",\"normalized\":");
    match &parsed.normalized {
        Some(n) => {
            let nj = quoted(n);
            append_chars(&mut out, nj.as_slice());
        },
        None => append_str(&mut out, "null"),
    }
    append_str(&mut out, ",\"mode\":\"");
    match parsed.mode {
        Mode::Unknown => append_str(&mut out, "unknown"),
        Mode::Unlimited => append_str(&mut out, "unlimited"),
        Mode::Sandclock => append_str(&mut out, "sandclock"),
        Mode::Normal => append_str(&mut out, "normal"),
    }
    append_str(&mut out, "\",\"periods\":[");
    append_chars(&mut out, periods_json.as_slice());
    append_str(&mut out, "],\"warnings\":");
    match json_string_list_of(&parsed.warnings) {
        Some(j) => append_str(&mut out, j.as_str()),
        None => append_str(&mut out, "[]"),
    }
    append_str(&mut out, ",\"inferred\":");
    if parsed.inferred {
        append_str(&mut out, "true");
    } else {
        append_str(&mut out, "false");
    }
    append_str(&mut out, ",\"overflow\":");
    if parsed.overflow {
        append_str(&mut out, "true");
    } else {
        append_str(&mut out, "false");
    }
    append_str(&mut out, "}");
    assert(out@ =~= timecontrol_json(parsed@));
    text::string_of(out.as_slice())
}

/// The JSON of `m`, split around its `"mode"` member.
#[verifier::spinoff_prover]
#[verifier::rlimit(40)]
proof fn lemma_json_mode_member(m: TimeControlModel)
    ensures
        timecontrol_json(m) == ("{\"raw\":"@ + json_string(m.raw) + ",\"normalized\":"@ + (match m.normalized {
            Some(n) => json_string(n),
            None => "null"@,
        }) + ","@) + ("\"mode\":\""@ + mode_name(m.mode) + "\""@) + (",\"periods\":["@ + text::join(
            m.periods.map_values(|p: Period| period_json(p)),
            ","@,
        ) + "],\"warnings\":"@ + json_string_array(m.warnings) + ",\"inferred\":"@ + bool_text(
            m.inferred,
        ) + ",\"overflow\":"@ + bool_text(m.overflow) + "}"@),
{
    let a = "{\"raw\":"@ + json_string(m.raw) + ",\"normalized\":"@ + (match m.normalized {
        Some(n) => json_string(n),
        None => "null"@,
    });
    let name = mode_name(m.mode);
    let z = "],\"warnings\":"@ + json_string_array(m.warnings) + ",\"inferred\":"@ + bool_text(
        m.inferred,
    ) + ",\"overflow\":"@ + bool_text(m.overflow) + "}"@;
    let ps = text::join(m.periods.map_values(|p: Period| period_json(p)), ","@);
    assert(",\"mode\":\""@ =~= ","@ + "\"mode\":\""@) by {
        reveal_strlit(",\"mode\":\"");
        reveal_strlit(",");
        reveal_strlit("\"mode\":\"");
    }
    assert("\",\"periods\":["@ =~= "\""@ + ",\"periods\":["@) by {
        reveal_strlit("\",\"periods\":[");
        reveal_strlit("\"");
        reveal_strlit(",\"periods\":[");
    }
    assert(timecontrol_json(m) == a + ",\"mode\":\""@ + name + "\",\"periods\":["@ + ps + z);
    assert(a + ",\"mode\":\""@ + name + "\",\"periods\":["@ + ps + z =~= (a + ","@) + ("\"mode\":\""@
        + name + "\""@) + (",\"periods\":["@ + ps + z));
}

/// Law: the JSON of a time control names its mode in a `"mode"` member, by
/// the mode's own name: `"mode":"unknown"`, `"mode":"unlimited"`,
/// `"mode":"sandclock"` or `"mode":"normal"`, right after the raw and
/// normalized texts.
#[verifier::spinoff_prover]
pub proof fn law_json_names_mode(m: TimeControlModel)
    ensures
        exists|pre: Seq<char>, post: Seq<char>|
            #![trigger pre + post]
            timecontrol_json(m) == pre + ("\"mode\":\""@ + match m.mode {
                Mode::Unknown => "unknown"@,
                Mode::Unlimited => "unlimited"@,
                Mode::Sandclock => "sandclock"@,
                Mode::Normal => "normal"@,
            } + "\""@) + post && pre.take(7) == "{\"raw\":"@,
{
    lemma_json_mode_member(m);
    let pre = "{\"raw\":"@ + json_string(m.raw) + ",\"normalized\":"@ + (match m.normalized {
        Some(n) => json_string(n),
        None => "null"@,
    }) + ","@;
    let post = ",\"periods\":["@ + text::join(m.periods.map_values(|p: Period| period_json(p)), ","@)
        + "],\"warnings\":"@ + json_string_array(m.warnings) + ",\"inferred\":"@ + bool_text(
        m.inferred,
    ) + ",\"overflow\":"@ + bool_text(m.overflow) + "}"@;
    assert(pre.take(7) =~= "{\"raw\":"@) by {
        reveal_strlit("{\"raw\":");
    }
    assert(timecontrol_json(m) == pre + ("\"mode\":\""@ + match m.mode {
        Mode::Unknown => "unknown"@,
        Mode::Unlimited => "unlimited"@,
        Mode::Sandclock => "sandclock"@,
        Mode::Normal => "normal"@,
    } + "\""@) + post);
    let _ = pre + post;
}

} // verus!
