//! Trusted boundary around the `regex` crate.
//!
//! Pattern compilation and matching are deterministic functions of the
//! pattern and the text; their results are given names here, and the wrappers
//! state the few facts the scorer relies on.

use vstd::prelude::*;

verus! {

#[verifier::external_type_specification]
#[verifier::external_body]
pub struct ExRegex(regex::Regex);

/// Whether the `regex` crate accepts a pattern: the result of
/// `regex::Regex::new` being `Ok`, a function of the pattern alone.
pub uninterp spec fn regex_compiles(pattern: Seq<char>) -> bool;

/// The pattern a compiled `regex::Regex` was built from: what
/// `regex::Regex::as_str` returns, a function of the value alone.
pub uninterp spec fn regex_source(re: regex::Regex) -> Seq<char>;

/// Whether the pattern matches anywhere in the text: the result of
/// `regex::Regex::is_match`, a function of pattern and text alone.
pub uninterp spec fn regex_matches(pattern: Seq<char>, text: Seq<char>) -> bool;

/// The character span of the leftmost match of the pattern in the text: the
/// result of `regex::Regex::find`, a function of pattern and text alone.
pub uninterp spec fn regex_find(pattern: Seq<char>, text: Seq<char>) -> Option<(int, int)>;

/// Relies on `regex::Regex::new`: compilation succeeds or fails on the
/// pattern alone, and `Regex::as_str` on the compiled value returns exactly
/// the pattern it was built from.
#[verifier::external_body]
pub(crate) fn compile_pattern(pattern: &str) -> (r: Option<regex::Regex>)
    ensures
        r is Some <==> regex_compiles(pattern@),
        r matches Some(re) ==> regex_source(re) == pattern@,
{
    regex::Regex::new(pattern).ok()
}

/// Relies on `regex::Regex::is_match`: true if and only if the pattern
/// matches anywhere in the haystack.
#[verifier::external_body]
pub(crate) fn pattern_matches(re: &regex::Regex, text: &str) -> (r: bool)
    ensures
        r == regex_matches(regex_source(*re), text@),
{
    re.is_match(text)
}

/// Relies on `regex::Regex::find`: returns the leftmost match if and only if
/// the pattern matches the haystack.  The crate reports byte offsets on
/// character boundaries; they are converted here to character positions, the
/// unit the rest of the library works in.
#[verifier::external_body]
pub(crate) fn pattern_find(re: &regex::Regex, text: &str) -> (r: Option<(usize, usize)>)
    ensures
        r is Some <==> regex_matches(regex_source(*re), text@),
        r matches Some(p) ==> regex_find(regex_source(*re), text@) == Some(
            (p.0 as int, p.1 as int),
        ) && p.0 <= p.1 <= text@.len(),
        r is None ==> regex_find(regex_source(*re), text@) is None,
{
    match re.find(text) {
        Some(m) => {
            let start = text[..m.start()].chars().count();
            let end = text[..m.end()].chars().count();
            Some((start, end))
        }
        None => None,
    }
}

} // verus!
