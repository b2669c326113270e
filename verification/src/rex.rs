//! Trusted boundary to the `regex` crate. Pattern validity, matching,
//! capturing and escaping are all functions of their string arguments alone,
//! so each result is given a name that the adapter contracts speak of.

use vstd::prelude::*;

verus! {

/// Whether `regex::Regex::new` accepts the pattern (syntax and size limit).
pub uninterp spec fn regex_valid(p: Seq<char>) -> bool;

/// Whether the pattern matches anywhere in the text, as `Regex::is_match`
/// decides it. Meaningful only when `regex_valid(p)` holds.
pub uninterp spec fn regex_matches(p: Seq<char>, t: Seq<char>) -> bool;

/// The text of the first capture group of the first match, as
/// `Regex::captures` finds it; `None` when nothing matches or the group is
/// absent. Meaningful only when `regex_valid(p)` holds.
pub uninterp spec fn regex_capture1(p: Seq<char>, t: Seq<char>) -> Option<Seq<char>>;

/// The escaping of `s` by `regex::escape`: a pattern that matches `s`
/// literally.
pub uninterp spec fn regex_escaped(s: Seq<char>) -> Seq<char>;

/// Relies on `regex::Regex::new`: compilation succeeds exactly on valid
/// patterns within the default size limit, a function of the pattern alone.
#[verifier::external_body]
pub fn regex_check(pattern: &str) -> (r: bool)
    ensures
        r == regex_valid(pattern@),
{
    regex::Regex::new(pattern).is_ok()
}

/// Relies on `regex::Regex::new` and `regex::Regex::is_match`: whether a
/// valid pattern matches somewhere in the text, a function of pattern and
/// text alone; `None` exactly when the pattern does not compile.
#[verifier::external_body]
pub fn regex_is_match(pattern: &str, text: &str) -> (r: Option<bool>)
    ensures
        (r is Some) == regex_valid(pattern@),
        r matches Some(b) ==> b == regex_matches(pattern@, text@),
{
    match regex::Regex::new(pattern) {
        Ok(re) => Some(re.is_match(text)),
        Err(_) => None,
    }
}

/// Relies on `regex::Regex::new` and `regex::Regex::captures`: the first
/// capture group of the first match, a function of pattern and text alone;
/// `None` when the pattern does not compile, nothing matches, or the group
/// did not participate in the match.
#[verifier::external_body]
pub fn regex_capture_first(pattern: &str, text: &str) -> (r: Option<String>)
    ensures
        !regex_valid(pattern@) ==> r is None,
        regex_valid(pattern@) ==> match regex_capture1(pattern@, text@) {
            Some(c) => r matches Some(s) && s@ == c,
            None => r is None,
        },
{
    match regex::Regex::new(pattern) {
        Ok(re) => re.captures(text).and_then(|c| c.get(1)).map(|m| m.as_str().to_string()),
        Err(_) => None,
    }
}

/// Relies on `regex::escape`: the escaped form of `s`, a function of `s`
/// alone.
#[verifier::external_body]
pub fn regex_escape(s: &str) -> (r: String)
    ensures
        r@ == regex_escaped(s@),
{
    regex::escape(s)
}

} // verus!
