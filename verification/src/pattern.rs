//! Regular-expression matching on character sequences, through the `regex`
//! crate.
//!
//! What a regular expression matches is the `regex` crate's business: the
//! results below are named, not restated. Each name is a function of the
//! pattern text and the haystack alone (a pattern that does not compile gives
//! whatever `Regex::new` failing leads the wrapper to return).
use vstd::prelude::*;

verus! {

/// The capture groups of the first match of `pattern` in `haystack`
/// (`Regex::new(pattern)` then `Regex::captures`): `None` when the pattern
/// does not compile or nothing matches; otherwise every group of the pattern,
/// group 0 first, `None` for a group that took no part in the match.
pub uninterp spec fn regex_captures(pattern: Seq<char>, haystack: Seq<char>) -> Option<
    Seq<Option<Seq<char>>>,
>;

/// The capture groups of every successive non-overlapping match of `pattern`
/// in `haystack` (`Regex::captures_iter`), in order; empty when the pattern
/// does not compile.
pub uninterp spec fn regex_captures_all(pattern: Seq<char>, haystack: Seq<char>) -> Seq<
    Seq<Option<Seq<char>>>,
>;

/// `haystack` with every non-overlapping match of `pattern` replaced by
/// `replacement` (`Regex::replace_all`).
pub uninterp spec fn regex_replace_all(
    pattern: Seq<char>,
    haystack: Seq<char>,
    replacement: Seq<char>,
) -> Seq<char>;

/// The views of a list of optional character vectors.
pub open spec fn groups_view(v: Seq<Option<Vec<char>>>) -> Seq<Option<Seq<char>>> {
    Seq::new(
        v.len(),
        |i: int|
            match v[i] {
                Some(g) => Some(g@),
                None => None,
            },
    )
}

pub open spec fn opt_groups_view(o: Option<Vec<Option<Vec<char>>>>) -> Option<
    Seq<Option<Seq<char>>>,
> {
    match o {
        Some(v) => Some(groups_view(v@)),
        None => None,
    }
}

pub open spec fn all_groups_view(v: Seq<Vec<Option<Vec<char>>>>) -> Seq<Seq<Option<Seq<char>>>> {
    Seq::new(v.len(), |i: int| groups_view(v[i]@))
}

/// Group `i` of a list of capture groups, `None` when absent.
pub open spec fn group(c: Seq<Option<Seq<char>>>, i: int) -> Option<Seq<char>> {
    if 0 <= i < c.len() {
        c[i]
    } else {
        None
    }
}

/// Calls `Regex::new(pattern)` and `Regex::captures` on the haystack; the
/// result is `regex_captures` of the two, unproved.
#[verifier::external_body]
pub(crate) fn captures(pattern: &str, haystack: &[char]) -> (r: Option<Vec<Option<Vec<char>>>>)
    ensures
        opt_groups_view(r) == regex_captures(pattern@, haystack@),
{
    let text: String = haystack.iter().collect();
    let re = regex::Regex::new(pattern).ok()?;
    let caps = re.captures(&text)?;
    Some(caps.iter().map(|g| g.map(|m| m.as_str().chars().collect())).collect())
}

/// Calls `Regex::new(pattern)` and `Regex::captures_iter` on the haystack;
/// the result is `regex_captures_all` of the two, unproved.
#[verifier::external_body]
pub(crate) fn captures_all(pattern: &str, haystack: &[char]) -> (r: Vec<Vec<Option<Vec<char>>>>)
    ensures
        all_groups_view(r@) == regex_captures_all(pattern@, haystack@),
{
    let text: String = haystack.iter().collect();
    match regex::Regex::new(pattern) {
        Ok(re) => re.captures_iter(&text).map(|caps| {
            caps.iter().map(|g| g.map(|m| m.as_str().chars().collect())).collect()
        }).collect(),
        Err(_) => Vec::new(),
    }
}

/// Calls `Regex::new(pattern)` and `Regex::replace_all` on the haystack; the
/// result is `regex_replace_all` of the three, unproved.
#[verifier::external_body]
pub(crate) fn replace_all(pattern: &str, haystack: &[char], replacement: &str) -> (r: Vec<char>)
    ensures
        r@ == regex_replace_all(pattern@, haystack@, replacement@),
{
    let text: String = haystack.iter().collect();
    match regex::Regex::new(pattern) {
        Ok(re) => re.replace_all(&text, replacement).chars().collect(),
        Err(_) => haystack.to_vec(),
    }
}

/// Group `i` of a list of capture groups, copied.
pub fn group_exec(c: &Vec<Option<Vec<char>>>, i: usize) -> (r: Option<Vec<char>>)
    ensures
        opt_chars_view(r) == group(groups_view(c@), i as int),
{
    if i < c.len() {
        match &c[i] {
            Some(g) => Some(g.clone()),
            None => None,
        }
    } else {
        None
    }
}

pub open spec fn opt_chars_view(o: Option<Vec<char>>) -> Option<Seq<char>> {
    match o {
        Some(v) => Some(v@),
        None => None,
    }
}

} // verus!
