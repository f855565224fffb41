//! Trusted access to the `regex` crate, and the clamped substring.
//!
//! What a regular expression matches takes pages to state, but it is a
//! function of the pattern and the text alone, so the results are named
//! (`regex_match`, `regex_group`, `regex_replace`) and the parser's contracts
//! are stated over those names.

use vstd::prelude::*;
use crate::text::has_infix;
use regex::Regex;

verus! {

/// Whether `pattern` matches somewhere in `text` (false for a pattern that
/// does not compile).
pub uninterp spec fn regex_match(pattern: Seq<char>, text: Seq<char>) -> bool;

/// The text that the named capture `group` took in the first match of
/// `pattern` in `text`; `None` when there is no match, when the group did not
/// take part in it, or when the pattern does not compile.
pub uninterp spec fn regex_group(pattern: Seq<char>, text: Seq<char>, group: Seq<char>) -> Option<
    Seq<char>,
>;

/// `text` with every non-overlapping match of `pattern` replaced by
/// `replacement` (`text` itself for a pattern that does not compile).
pub uninterp spec fn regex_replace(
    pattern: Seq<char>,
    text: Seq<char>,
    replacement: Seq<char>,
) -> Seq<char>;

/// `Regex::new(pattern)` then `Regex::is_match(text)`.
/// Claims that the answer is the named result `regex_match`; a pattern that
/// fails to compile answers `false`.
#[verifier::external_body]
pub(crate) fn is_match(pattern: &str, text: &Vec<char>) -> (r: bool)
    ensures
        r == regex_match(pattern@, text@),
{
    let haystack: String = text.iter().collect();
    match Regex::new(pattern) {
        Ok(re) => re.is_match(&haystack),
        Err(_) => false,
    }
}

/// `Regex::new(pattern)`, `Regex::captures(text)`, `Captures::name(group)`
/// and `Match::as_str`. Claims that the answer is the named result
/// `regex_group`, that it is `None` where the pattern does not match (the
/// documentation of `captures`), and that a captured text is a contiguous
/// part of `text` (a `Match` is a span of the haystack).
#[verifier::external_body]
pub(crate) fn capture(pattern: &str, text: &Vec<char>, group: &str) -> (r: Option<Vec<char>>)
    ensures
        r is Some ==> r->0@ == regex_group(pattern@, text@, group@)->0,
        r is None <==> regex_group(pattern@, text@, group@) is None,
        !regex_match(pattern@, text@) ==> r is None,
        r is Some ==> has_infix(text@, r->0@),
{
    let haystack: String = text.iter().collect();
    match Regex::new(pattern) {
        Ok(re) => match re.captures(&haystack) {
            Some(caps) => match caps.name(group) {
                Some(m) => Some(m.as_str().chars().collect()),
                None => None,
            },
            None => None,
        },
        Err(_) => None,
    }
}

/// `Regex::new(pattern)` then `Regex::replace_all(text, replacement)`.
/// Claims that the answer is the named result `regex_replace`.
#[verifier::external_body]
pub(crate) fn replace_all(pattern: &str, text: &Vec<char>, replacement: &str) -> (r: Vec<char>)
    ensures
        r@ == regex_replace(pattern@, text@, replacement@),
{
    let haystack: String = text.iter().collect();
    match Regex::new(pattern) {
        Ok(re) => re.replace_all(&haystack, replacement).chars().collect(),
        Err(_) => text.clone(),
    }
}

/// What `Substring::substring(s, start, end)` returns: the characters from
/// index `start` up to index `end`, both clamped to the length, and nothing
/// when `end <= start`.
pub open spec fn substring_spec(s: Seq<char>, start: int, end: int) -> Seq<char> {
    if end <= start {
        Seq::empty()
    } else {
        let a = if start < s.len() {
            start
        } else {
            s.len() as int
        };
        let b = if end < s.len() {
            end
        } else {
            s.len() as int
        };
        s.subrange(a, b)
    }
}

/// The characters of `s` with indices in `[start, end)`, both clamped to the
/// length, as `substring::Substring::substring` gives them.
pub(crate) fn substring(s: &Vec<char>, start: usize, end: usize) -> (r: Vec<char>)
    ensures
        r@ == substring_spec(s@, start as int, end as int),
{
    let mut r: Vec<char> = Vec::new();
    if end <= start {
        return r;
    }
    let a: usize = if start < s.len() { start } else { s.len() };
    let b: usize = if end < s.len() { end } else { s.len() };
    let mut i: usize = a;
    while i < b
        invariant
            a <= i <= b,
            b <= s.len(),
            r@ == s@.subrange(a as int, i as int),
        decreases b - i,
    {
        r.push(s[i]);
        i = i + 1;
        assert(r@ =~= s@.subrange(a as int, i as int));
    }
    r
}

} // verus!
