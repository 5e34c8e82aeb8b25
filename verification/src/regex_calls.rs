//! Calls into the `regex` crate.
//!
//! Each wrapper compiles its pattern with `Regex::new` and performs one
//! operation. What a regular expression engine computes is not restated
//! here: each operation's result is named by an uninterpreted function of
//! the pattern and the text, `None` standing for a pattern that does not
//! compile (where `Regex::new` returns an error).
use vstd::prelude::*;

verus! {

/// Result of `Regex::new(pattern)` then `Regex::replace_all(text, rep)`.
pub uninterp spec fn regex_replace_all_result(
    pattern: Seq<char>,
    text: Seq<char>,
    rep: Seq<char>,
) -> Option<Seq<char>>;

/// Result of `Regex::new(pattern)` then `Regex::replace(text, rep)`
/// (first match only).
pub uninterp spec fn regex_replace_first_result(
    pattern: Seq<char>,
    text: Seq<char>,
    rep: Seq<char>,
) -> Option<Seq<char>>;

/// Result of `Regex::new(pattern)` then `Regex::is_match(text)`.
pub uninterp spec fn regex_is_match_result(pattern: Seq<char>, text: Seq<char>) -> Option<bool>;

/// Result of `Regex::new(pattern)` then `Regex::captures(text)` and
/// `Captures::get(group)`: the outer `None` is a compile error, the inner
/// one a text without a match or a group that took no part in it.
pub uninterp spec fn regex_capture_result(
    pattern: Seq<char>,
    text: Seq<char>,
    group: nat,
) -> Option<Option<Seq<char>>>;

/// Result of `Regex::new(pattern)` then `Regex::captures(text)` and
/// `Captures::get(group)`, taken as the match's byte offsets
/// (`Match::start`, `Match::end`).
pub uninterp spec fn regex_capture_span_result(
    pattern: Seq<char>,
    text: Seq<char>,
    group: nat,
) -> Option<Option<(nat, nat)>>;

/// `regex::is_meta_character`, as written in `regex-syntax`.
pub open spec fn is_regex_meta(c: char) -> bool {
    c == '\\' || c == '.' || c == '+' || c == '*' || c == '?' || c == '(' || c == ')' || c
        == '|' || c == '[' || c == ']' || c == '{' || c == '}' || c == '^' || c == '$' || c
        == '#' || c == '&' || c == '-' || c == '~'
}

/// What `regex::escape` returns: each meta character preceded by `\`.
pub open spec fn regex_escaped(s: Seq<char>) -> Seq<char>
    decreases s.len(),
{
    if s.len() == 0 {
        seq![]
    } else {
        regex_escaped(s.drop_last()) + if is_regex_meta(s.last()) {
            seq!['\\', s.last()]
        } else {
            seq![s.last()]
        }
    }
}

/// `regex::escape`: the contract restates the crate's own definition
/// (`escape_into` pushes a backslash before each meta character).
#[verifier::external_body]
pub(crate) fn regex_escape(s: &str) -> (r: String)
    ensures
        r@ == regex_escaped(s@),
{
    regex::escape(s)
}

/// `Regex::new` + `Regex::replace_all`; the contract names the result.
#[verifier::external_body]
pub(crate) fn regex_replace_all(pattern: &str, text: &str, rep: &str) -> (r: Option<String>)
    ensures
        r.deep_view() == regex_replace_all_result(pattern@, text@, rep@),
{
    match regex::Regex::new(pattern) {
        Ok(re) => Some(re.replace_all(text, rep).into_owned()),
        Err(_) => None,
    }
}

/// `Regex::new` + `Regex::replace` (first match); the contract names the result.
#[verifier::external_body]
pub(crate) fn regex_replace_first(pattern: &str, text: &str, rep: &str) -> (r: Option<String>)
    ensures
        r.deep_view() == regex_replace_first_result(pattern@, text@, rep@),
{
    match regex::Regex::new(pattern) {
        Ok(re) => Some(re.replace(text, rep).into_owned()),
        Err(_) => None,
    }
}

/// `Regex::new` + `Regex::is_match`; the contract names the result.
#[verifier::external_body]
pub(crate) fn regex_is_match(pattern: &str, text: &str) -> (r: Option<bool>)
    ensures
        r == regex_is_match_result(pattern@, text@),
{
    match regex::Regex::new(pattern) {
        Ok(re) => Some(re.is_match(text)),
        Err(_) => None,
    }
}

/// `Regex::new` + `Regex::captures` + `Captures::get(group)`; the contract
/// names the result.
#[verifier::external_body]
pub(crate) fn regex_capture(pattern: &str, text: &str, group: usize) -> (r: Option<
    Option<String>,
>)
    ensures
        r.deep_view() == regex_capture_result(pattern@, text@, group as nat),
{
    match regex::Regex::new(pattern) {
        Ok(re) => Some(re.captures(text).and_then(|c| c.get(group)).map(|m| m.as_str().to_string())),
        Err(_) => None,
    }
}

/// `Regex::new` + `Regex::captures` + `Captures::get(group)`, returning the
/// group's byte offsets; the contract names the result.
#[verifier::external_body]
pub(crate) fn regex_capture_span(pattern: &str, text: &str, group: usize) -> (r: Option<
    Option<(usize, usize)>,
>)
    ensures
        r matches Some(Some(sp)) ==> regex_capture_span_result(pattern@, text@, group as nat)
            == Some(Some((sp.0 as nat, sp.1 as nat))),
        r matches Some(None) ==> regex_capture_span_result(pattern@, text@, group as nat) == Some(
            None::<(nat, nat)>,
        ),
        r is None ==> regex_capture_span_result(pattern@, text@, group as nat) is None,
{
    match regex::Regex::new(pattern) {
        Ok(re) => Some(re.captures(text).and_then(|c| c.get(group)).map(|m| (m.start(), m.end()))),
        Err(_) => None,
    }
}

// ---------------------------------------------------------------------------
// Verified uses: a pattern that does not compile leaves the text as it is,
// matches nothing and captures nothing.
// ---------------------------------------------------------------------------

pub open spec fn rx_replace_all(p: Seq<char>, t: Seq<char>, r: Seq<char>) -> Seq<char> {
    match regex_replace_all_result(p, t, r) {
        Some(x) => x,
        None => t,
    }
}

pub open spec fn rx_replace_first(p: Seq<char>, t: Seq<char>, r: Seq<char>) -> Seq<char> {
    match regex_replace_first_result(p, t, r) {
        Some(x) => x,
        None => t,
    }
}

pub open spec fn rx_is_match(p: Seq<char>, t: Seq<char>) -> bool {
    match regex_is_match_result(p, t) {
        Some(b) => b,
        None => false,
    }
}

pub open spec fn rx_capture(p: Seq<char>, t: Seq<char>, g: nat) -> Option<Seq<char>> {
    match regex_capture_result(p, t, g) {
        Some(x) => x,
        None => None,
    }
}

pub open spec fn rx_span(p: Seq<char>, t: Seq<char>, g: nat) -> Option<(nat, nat)> {
    match regex_capture_span_result(p, t, g) {
        Some(x) => x,
        None => None,
    }
}

/// Every match of `pattern` in `text` replaced by `rep`.
pub fn replace_all_rx(pattern: &str, text: &[char], rep: &str) -> (r: Vec<char>)
    ensures
        r@ == rx_replace_all(pattern@, text@, rep@),
{
    let t = crate::text::string_of(text);
    match regex_replace_all(pattern, t.as_str(), rep) {
        Some(x) => crate::text::chars_of(x.as_str()),
        None => crate::text::to_vec(text),
    }
}

/// The first match of `pattern` in `text` replaced by `rep`.
pub fn replace_first_rx(pattern: &str, text: &[char], rep: &str) -> (r: Vec<char>)
    ensures
        r@ == rx_replace_first(pattern@, text@, rep@),
{
    let t = crate::text::string_of(text);
    match regex_replace_first(pattern, t.as_str(), rep) {
        Some(x) => crate::text::chars_of(x.as_str()),
        None => crate::text::to_vec(text),
    }
}

/// Whether `pattern` matches somewhere in `text`.
pub fn is_match_rx(pattern: &str, text: &[char]) -> (r: bool)
    ensures
        r == rx_is_match(pattern@, text@),
{
    let t = crate::text::string_of(text);
    match regex_is_match(pattern, t.as_str()) {
        Some(b) => b,
        None => false,
    }
}

/// The text of capture `group` of the first match, if it took part.
pub fn capture_rx(pattern: &str, text: &[char], group: usize) -> (r: Option<Vec<char>>)
    ensures
        match r {
            Some(v) => rx_capture(pattern@, text@, group as nat) == Some(v@),
            None => rx_capture(pattern@, text@, group as nat) is None,
        },
{
    let t = crate::text::string_of(text);
    match regex_capture(pattern, t.as_str(), group) {
        Some(Some(x)) => Some(crate::text::chars_of(x.as_str())),
        _ => None,
    }
}

/// The byte offsets (in the UTF-8 text) of capture `group` of the first
/// match, if it took part.
pub fn capture_span_rx(pattern: &str, text: &[char], group: usize) -> (r: Option<(usize, usize)>)
    ensures
        match r {
            Some(sp) => rx_span(pattern@, text@, group as nat) == Some((sp.0 as nat, sp.1 as nat)),
            None => rx_span(pattern@, text@, group as nat) is None,
        },
{
    let t = crate::text::string_of(text);
    match regex_capture_span(pattern, t.as_str(), group) {
        Some(Some(sp)) => Some(sp),
        _ => None,
    }
}

} // verus!
