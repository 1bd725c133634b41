//! Regular-expression matching, through the `regex` crate.
use vstd::prelude::*;

verus! {

/// Whether `pattern` matches somewhere in `text`; an invalid pattern matches
/// nothing.
pub uninterp spec fn regex_match(pattern: Seq<char>, text: Seq<char>) -> bool;

/// The text of capture group `group` in the leftmost-first match of
/// `pattern` in `text`, if there is a match and the group took part in it.
pub uninterp spec fn regex_capture(pattern: Seq<char>, text: Seq<char>, group: nat) -> Option<
    Seq<char>,
>;

/// For each successive non-overlapping match of `pattern` in `text`, the
/// text of capture group `group`, if that group took part in the match.
pub uninterp spec fn regex_captures_all(pattern: Seq<char>, text: Seq<char>, group: nat) -> Seq<
    Option<Seq<char>>,
>;

pub open spec fn option_view(o: Option<String>) -> Option<Seq<char>> {
    match o {
        Some(s) => Some(s@),
        None => None,
    }
}

/// Relies on `regex::Regex::is_match`, after `Regex::new` compiled `pattern`.
#[verifier::external_body]
pub(crate) fn is_match(pattern: &str, text: &str) -> (r: bool)
    ensures
        r == regex_match(pattern@, text@),
{
    match regex::Regex::new(pattern) {
        Ok(re) => re.is_match(text),
        Err(_) => false,
    }
}

/// Relies on `regex::Regex::captures` and `Captures::get`, after `Regex::new`
/// compiled `pattern`.
#[verifier::external_body]
pub(crate) fn capture(pattern: &str, text: &str, group: usize) -> (r: Option<String>)
    ensures
        option_view(r) == regex_capture(pattern@, text@, group as nat),
{
    let re = match regex::Regex::new(pattern) {
        Ok(re) => re,
        Err(_) => return None,
    };
    match re.captures(text) {
        Some(caps) => match caps.get(group) {
            Some(m) => Some(m.as_str().to_string()),
            None => None,
        },
        None => None,
    }
}

/// Relies on `regex::Regex::captures_iter` and `Captures::get`, after
/// `Regex::new` compiled `pattern`; an invalid pattern has no matches.
#[verifier::external_body]
pub(crate) fn captures_all(pattern: &str, text: &str, group: usize) -> (r: Vec<Option<String>>)
    ensures
        r@.map_values(|o: Option<String>| option_view(o)) == regex_captures_all(
            pattern@,
            text@,
            group as nat,
        ),
{
    let re = match regex::Regex::new(pattern) {
        Ok(re) => re,
        Err(_) => return Vec::new(),
    };
    let mut out = Vec::new();
    for caps in re.captures_iter(text) {
        out.push(caps.get(group).map(|m| m.as_str().to_string()));
    }
    out
}

} // verus!
