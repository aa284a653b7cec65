//! Strict parsing of time controls in PGN standard notation.
use vstd::prelude::*;
use super::{Mode, ParsedTimeControl, Period, TimeControlModel};
use crate::text::{self, decimal, parse_u32_exec, split_char_exec};

verus! {

/// `s` read as one stage: `[moves/]base[+increment]`, all decimal numbers.
pub open spec fn parse_stage(s: Seq<char>) -> Option<Period> {
    let plus_parts = text::split_char(s, '+');
    if s.contains('+') && plus_parts.len() != 2 {
        None
    } else {
        let base_part = if s.contains('+') { plus_parts[0] } else { s };
        let slash_parts = text::split_char(base_part, '/');
        if base_part.contains('/') && slash_parts.len() != 2 {
            None
        } else if base_part.contains('/') && text::parse_u32(slash_parts[0]) is None {
            None
        } else {
            let moves = if base_part.contains('/') { text::parse_u32(slash_parts[0]) } else { None };
            let base_str = if base_part.contains('/') { slash_parts[1] } else { base_part };
            match text::parse_u32(base_str) {
                None => None,
                Some(base_seconds) => {
                    if s.contains('+') {
                        match text::parse_u32(plus_parts[1]) {
                            None => None,
                            Some(inc) => Some(Period { moves, base_seconds, increment_seconds: Some(inc) }),
                        }
                    } else {
                        Some(Period { moves, base_seconds, increment_seconds: None })
                    }
                },
            }
        }
    }
}

pub fn parse_stage_exec(s: &[char]) -> (r: Option<Period>)
    ensures
        r == parse_stage(s@),
{
    let has_plus = text::contains_char(s, '+');
    let plus_parts = split_char_exec(s, '+');
    if has_plus && plus_parts.len() != 2 {
        return None;
    }
    let base_part: &[char] = if has_plus { plus_parts[0].as_slice() } else { s };
    let has_slash = text::contains_char(base_part, '/');
    let slash_parts = split_char_exec(base_part, '/');
    if has_slash && slash_parts.len() != 2 {
        return None;
    }
    let moves = if has_slash {
        match parse_u32_exec(slash_parts[0].as_slice()) {
            Some(m) => Some(m),
            None => return None,
        }
    } else {
        None
    };
    let base_str: &[char] = if has_slash { slash_parts[1].as_slice() } else { base_part };
    let base_seconds = match parse_u32_exec(base_str) {
        Some(b) => b,
        None => return None,
    };
    if has_plus {
        match parse_u32_exec(plus_parts[1].as_slice()) {
            Some(inc) => Some(Period { moves, base_seconds, increment_seconds: Some(inc) }),
            None => None,
        }
    } else {
        Some(Period { moves, base_seconds, increment_seconds: None })
    }
}

/// The standard notation of one period.
pub open spec fn format_period(p: Period) -> Seq<char> {
    let base = match p.moves {
        Some(m) => text::dec(m as nat) + "/"@ + text::dec(p.base_seconds as nat),
        None => text::dec(p.base_seconds as nat),
    };
    match p.increment_seconds {
        Some(inc) => base + "+"@ + text::dec(inc as nat),
        None => base,
    }
}

pub fn format_period_exec(p: &Period) -> (r: Vec<char>)
    ensures
        r@ == format_period(*p),
{
    let mut out: Vec<char> = Vec::new();
    match p.moves {
        Some(m) => {
            text::push_decimal(&mut out, m as u64);
            text::append_str(&mut out, "/");
            text::push_decimal(&mut out, p.base_seconds as u64);
        },
        None => {
            text::push_decimal(&mut out, p.base_seconds as u64);
        },
    }
    match p.increment_seconds {
        Some(inc) => {
            text::append_str(&mut out, "+");
            text::push_decimal(&mut out, inc as u64);
        },
        None => {},
    }
    assert(out@ =~= format_period(*p));
    out
}

/// Values small enough to be read as minutes rather than seconds.
pub open spec fn looks_like_minute_shorthand(p: Period) -> bool {
    if p.moves is Some {
        false
    } else {
        match p.increment_seconds {
            Some(inc) => (p.base_seconds < 60 && inc <= 60) || ((p.base_seconds == 75
                || p.base_seconds == 90) && inc == 30),
            None => p.base_seconds < 60,
        }
    }
}

pub fn looks_like_minute_shorthand_exec(p: &Period) -> (r: bool)
    ensures
        r == looks_like_minute_shorthand(*p),
{
    if p.moves.is_some() {
        return false;
    }
    match p.increment_seconds {
        Some(inc) => (p.base_seconds < 60 && inc <= 60) || ((p.base_seconds == 75 || p.base_seconds
            == 90) && inc == 30),
        None => p.base_seconds < 60,
    }
}

/// Every piece read as a stage, `None` as soon as one is not a stage.
pub open spec fn parse_stages(parts: Seq<Seq<char>>) -> Option<Seq<Period>>
    decreases parts.len(),
{
    if parts.len() == 0 {
        Some(Seq::empty())
    } else {
        match parse_stages(parts.drop_last()) {
            None => None,
            Some(ps) => match parse_stage(parts.last()) {
                None => None,
                Some(p) => Some(ps.push(p)),
            },
        }
    }
}

pub fn parse_stages_exec(parts: &Vec<Vec<char>>) -> (r: Option<Vec<Period>>)
    ensures
        match r {
            Some(v) => parse_stages(text::views(parts@)) == Some(v@),
            None => parse_stages(text::views(parts@)) is None,
        },
{
    let mut periods: Vec<Period> = Vec::new();
    let mut i: usize = 0;
    while i < parts.len()
        invariant
            i <= parts@.len(),
            parse_stages(text::views(parts@).take(i as int)) == Some(periods@),
        decreases parts.len() - i,
    {
        assert(text::views(parts@).take(i + 1).drop_last() =~= text::views(parts@).take(i as int));
        assert(text::views(parts@).take(i + 1).last() == parts@[i as int]@);
        match parse_stage_exec(parts[i].as_slice()) {
            Some(p) => periods.push(p),
            None => {
                proof {
                    lemma_parse_stages_none_extends(text::views(parts@), i as int + 1);
                }
                return None;
            },
        }
        i += 1;
    }
    assert(text::views(parts@).take(parts@.len() as int) =~= text::views(parts@));
    Some(periods)
}

/// Once a prefix fails, the whole list fails.
pub proof fn lemma_parse_stages_none_extends(parts: Seq<Seq<char>>, k: int)
    requires
        0 <= k <= parts.len(),
        parse_stages(parts.take(k)) is None,
    ensures
        parse_stages(parts) is None,
    decreases parts.len() - k,
{
    if k < parts.len() {
        assert(parts.take(k + 1).drop_last() =~= parts.take(k));
        lemma_parse_stages_none_extends(parts, k + 1);
    } else {
        assert(parts.take(k) =~= parts);
    }
}

/// A model built by the strict parser.
pub open spec fn strict_model(
    input: Seq<char>,
    normalized: Seq<char>,
    periods: Seq<Period>,
    mode: Mode,
    warnings: Seq<Seq<char>>,
) -> TimeControlModel {
    TimeControlModel {
        raw: input,
        normalized: Some(normalized),
        periods,
        mode,
        warnings,
        inferred: false,
        overflow: false,
    }
}

/// Strict PGN notation: `?`, `-`, `*secs`, `stage:stage...`, or a single
/// stage that does not look like a minute shorthand.
pub open spec fn try_strict(input: Seq<char>, warnings: Seq<Seq<char>>) -> Option<TimeControlModel> {
    let stage_parts = text::split_char(input, ':');
    if input == "?"@ {
        Some(strict_model(input, "?"@, Seq::empty(), Mode::Unknown, warnings))
    } else if input == "-"@ {
        Some(strict_model(input, "-"@, Seq::empty(), Mode::Unlimited, warnings))
    } else if input.len() > 0 && input[0] == '*' && text::parse_u32(input.drop_first()) is Some {
        let secs = text::parse_u32(input.drop_first()).unwrap();
        Some(
            strict_model(
                input,
                "*"@ + text::dec(secs as nat),
                seq![Period { moves: None, base_seconds: secs, increment_seconds: None }],
                Mode::Sandclock,
                warnings,
            ),
        )
    } else if stage_parts.len() > 1 && parse_stages(stage_parts) is Some && parse_stages(
        stage_parts,
    ).unwrap().len() > 0 {
        let ps = parse_stages(stage_parts).unwrap();
        Some(strict_model(input, super::format_periods(ps), ps, Mode::Normal, warnings))
    } else {
        match parse_stage(input) {
            Some(p) => if looks_like_minute_shorthand(p) {
                None
            } else {
                Some(strict_model(input, format_period(p), seq![p], Mode::Normal, warnings))
            },
            None => None,
        }
    }
}

pub fn try_strict_parse(input: &[char], warnings: &Vec<String>) -> (r: Option<ParsedTimeControl>)
    ensures
        super::opt_model(r) == try_strict(input@, super::string_views(warnings@)),
{
    let ghost w = super::string_views(warnings@);
    if text::chars_eq_str(input, "?") {
        return Some(
            ParsedTimeControl {
                raw: text::string_of(input),
                normalized: Some(text::string_from("?")),
                periods: Vec::new(),
                mode: Mode::Unknown,
                warnings: super::clone_strings(warnings),
                inferred: false,
                overflow: false,
            },
        );
    }
    if text::chars_eq_str(input, "-") {
        return Some(
            ParsedTimeControl {
                raw: text::string_of(input),
                normalized: Some(text::string_from("-")),
                periods: Vec::new(),
                mode: Mode::Unlimited,
                warnings: super::clone_strings(warnings),
                inferred: false,
                overflow: false,
            },
        );
    }
    if input.len() > 0 && input[0] == '*' {
        let rest = text::copy_range(input, 1, input.len());
        assert(rest@ =~= input@.drop_first());
        match parse_u32_exec(rest.as_slice()) {
            Some(secs) => {
                let mut norm: Vec<char> = Vec::new();
                norm.push('*');
                text::push_decimal(&mut norm, secs as u64);
                proof {
                    reveal_strlit("*");
                }
                assert(norm@ =~= "*"@ + text::dec(secs as nat));
                let mut periods: Vec<Period> = Vec::new();
                periods.push(Period { moves: None, base_seconds: secs, increment_seconds: None });
                let r = ParsedTimeControl {
                    raw: text::string_of(input),
                    normalized: Some(text::string_of(norm.as_slice())),
                    periods,
                    mode: Mode::Sandclock,
                    warnings: super::clone_strings(warnings),
                    inferred: false,
                    overflow: false,
                };
                assert(r@.periods =~= seq![Period { moves: None, base_seconds: secs, increment_seconds: None }]);
                return Some(r);
            },
            None => {},
        }
    }
    let stage_parts = split_char_exec(input, ':');
    if stage_parts.len() > 1 {
        match parse_stages_exec(&stage_parts) {
            Some(periods) => {
                if periods.len() > 0 {
                    let norm = super::format_periods_exec(&periods);
                    return Some(
                        ParsedTimeControl {
                            raw: text::string_of(input),
                            normalized: Some(text::string_of(norm.as_slice())),
                            periods,
                            mode: Mode::Normal,
                            warnings: super::clone_strings(warnings),
                            inferred: false,
                            overflow: false,
                        },
                    );
                }
            },
            None => {},
        }
    }
    match parse_stage_exec(input) {
        Some(p) => {
            if looks_like_minute_shorthand_exec(&p) {
                return None;
            }
            let norm = format_period_exec(&p);
            let mut periods: Vec<Period> = Vec::new();
            periods.push(p);
            let r = ParsedTimeControl {
                raw: text::string_of(input),
                normalized: Some(text::string_of(norm.as_slice())),
                periods,
                mode: Mode::Normal,
                warnings: super::clone_strings(warnings),
                inferred: false,
                overflow: false,
            };
            assert(r@.periods =~= seq![p]);
            Some(r)
        },
        None => None,
    }
}

/// Law: the standard notation of a period reads back as that period.
pub proof fn law_stage_round_trip(p: Period)
    ensures
        parse_stage(format_period(p)) == Some(p),
{
    reveal_strlit("+");
    reveal_strlit("/");
    let b = text::dec(p.base_seconds as nat);
    text::lemma_parse_dec(p.base_seconds);
    text::lemma_dec_lacks(p.base_seconds as nat, '+');
    text::lemma_dec_lacks(p.base_seconds as nat, '/');
    let base = match p.moves {
        Some(m) => text::dec(m as nat) + "/"@ + b,
        None => b,
    };
    match p.moves {
        Some(m) => {
            let md = text::dec(m as nat);
            text::lemma_parse_dec(m);
            text::lemma_dec_lacks(m as nat, '+');
            text::lemma_dec_lacks(m as nat, '/');
            text::lemma_concat_lacks(md, seq!['/'], '+');
            text::lemma_concat_lacks(md + seq!['/'], b, '+');
            text::lemma_split_one_sep(md, b, '/');
            assert(base == md + seq!['/'] + b);
            assert(base[md.len() as int] == '/');
            assert(base.contains('/'));
        },
        None => {},
    }
    assert(!base.contains('+'));
    match p.increment_seconds {
        Some(i) => {
            let id = text::dec(i as nat);
            text::lemma_parse_dec(i);
            text::lemma_dec_lacks(i as nat, '+');
            text::lemma_split_one_sep(base, id, '+');
            let s = base + seq!['+'] + id;
            assert(format_period(p) == s);
            assert(s[base.len() as int] == '+');
            assert(s.contains('+'));
        },
        None => {
            assert(format_period(p) == base);
        },
    }
}

} // verus!
