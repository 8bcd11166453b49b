//! Text patterns, matched by the `regex` crate.

use crate::text::{is_digit, is_space, opt_text, texts};
use vstd::prelude::*;

verus! {

/// Runs of decimal digits.
pub const DIGIT_RUNS: &'static str = "\\d+";

/// A number, with a fraction at most.
pub const NUMBER: &'static str = "(\\d+(?:\\.\\d+)?)";

/// A number with a percent sign behind it.
pub const PERCENTAGE: &'static str = "(\\d+(?:\\.\\d+)?)%";

/// The address of a page on the web, with no white space in it.
pub const WEB_ADDRESS: &'static str = "^https?://\\S+$";

/// The matches of a pattern in a text, left to right; nothing where the pattern
/// is not a valid one.
pub uninterp spec fn matches_of(pattern: Seq<char>, text: Seq<char>) -> Option<Seq<Seq<char>>>;

/// The first group of the first match of a pattern in a text, where there is
/// one.
pub uninterp spec fn group_of(pattern: Seq<char>, text: Seq<char>) -> Option<Seq<char>>;

/// A text has no white space.
pub open spec fn no_space(s: Seq<char>) -> bool {
    forall|i: int| 0 <= i < s.len() ==> !is_space(#[trigger] s[i])
}

/// The address of a page on the web: a scheme and something behind it, with no
/// white space in either.
pub open spec fn is_web_address(s: Seq<char>) -> bool {
    &&& no_space(s)
    &&& ("http://"@.is_prefix_of(s) && s.len() > "http://"@.len()) || ("https://"@.is_prefix_of(s)
        && s.len() > "https://"@.len())
}

/// The length of the run of ASCII digits that `s` begins with.
pub open spec fn run_len(s: Seq<char>) -> int
    decreases s.len(),
{
    if s.len() == 0 || !is_digit(s[0]) {
        0
    } else {
        1 + run_len(s.skip(1))
    }
}

/// The runs of ASCII digits in `s`, left to right.
pub open spec fn digit_runs(s: Seq<char>) -> Seq<Seq<char>>
    decreases s.len(),
{
    if s.len() == 0 {
        seq![]
    } else if 0 < run_len(s) <= s.len() {
        seq![s.take(run_len(s))] + digit_runs(s.skip(run_len(s)))
    } else {
        digit_runs(s.skip(1))
    }
}

/// The length of the number that `s` begins with: a run of digits, and a point
/// with another run behind it where both are there.
pub open spec fn number_len(s: Seq<char>) -> int {
    let n = run_len(s);
    if 0 < n < s.len() && s[n] == '.' && run_len(s.skip(n + 1)) > 0 {
        n + 1 + run_len(s.skip(n + 1))
    } else {
        n
    }
}

/// The first number in `s`.
pub open spec fn first_number(s: Seq<char>) -> Option<Seq<char>>
    decreases s.len(),
{
    if s.len() == 0 {
        None
    } else if number_len(s) > 0 {
        Some(s.take(number_len(s)))
    } else {
        first_number(s.skip(1))
    }
}

/// The number in the first percentage in `s`.
pub open spec fn first_percentage(s: Seq<char>) -> Option<Seq<char>>
    decreases s.len(),
{
    if s.len() == 0 {
        None
    } else if 0 < number_len(s) < s.len() && s[number_len(s)] == '%' {
        Some(s.take(number_len(s)))
    } else {
        first_percentage(s.skip(1))
    }
}

/// The contents of an optional list of texts.
pub open spec fn opt_texts(o: Option<Vec<String>>) -> Option<Seq<Seq<char>>> {
    match o {
        Some(v) => Some(texts(v@)),
        None => None,
    }
}

/// Calls `regex::Regex::new` and `Regex::find_iter`. The matches are a function
/// of the pattern and the text. `\d+` is a valid pattern, and in a text of
/// ASCII characters its matches are the runs of digits; which characters of
/// other scripts count as digits is left to the Unicode tables of the crate.
#[verifier::external_body]
pub(crate) fn find_all(pattern: &str, text: &str) -> (r: Option<Vec<String>>)
    ensures
        opt_texts(r) == matches_of(pattern@, text@),
        pattern@ == DIGIT_RUNS@ ==> r is Some,
        pattern@ == DIGIT_RUNS@ && vstd::utf8::is_ascii_chars(text@) ==> opt_texts(r) == Some(
            digit_runs(text@),
        ),
{
    let re = regex::Regex::new(pattern).ok()?;
    Some(re.find_iter(text).map(|m| m.as_str().to_string()).collect())
}

/// Calls `regex::Regex::new` and `Regex::captures`. The first group of the
/// leftmost match is a function of the pattern and the text. In a text of ASCII
/// characters a number begins at the first digit and takes in all it can, and a
/// percentage is the first number that a percent sign follows.
#[verifier::external_body]
pub(crate) fn first_group(pattern: &str, text: &str) -> (r: Option<String>)
    ensures
        opt_text(r) == group_of(pattern@, text@),
        pattern@ == NUMBER@ && vstd::utf8::is_ascii_chars(text@) ==> opt_text(r) == first_number(
            text@,
        ),
        pattern@ == PERCENTAGE@ && vstd::utf8::is_ascii_chars(text@) ==> opt_text(r)
            == first_percentage(text@),
{
    let re = regex::Regex::new(pattern).ok()?;
    re.captures(text).and_then(|c| c.get(1)).map(|m| m.as_str().to_string())
}

/// Calls `regex::Regex::new` and `Regex::is_match` with the pattern of an
/// address: a scheme with at least one character behind it, up to the end of
/// the text, none of them white space.
#[verifier::external_body]
pub(crate) fn matches_address(text: &str) -> (r: bool)
    ensures
        r == is_web_address(text@),
{
    regex::Regex::new(WEB_ADDRESS).map(|re| re.is_match(text)).unwrap_or(false)
}

} // verus!
