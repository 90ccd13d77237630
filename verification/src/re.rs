//! Flag extraction: the configured pattern applied to captured exploit
//! output.  Every non-overlapping match is a candidate flag; the fully
//! matched text is the flag, in order of appearance.
//!
//! The pattern language is the regex crate's; compiling and matching are
//! its work, named and relied upon here.

use vstd::prelude::*;

verus! {

#[verifier::external_type_specification]
#[verifier::external_body]
pub struct ExRegex(regex::bytes::Regex);

#[verifier::external_type_specification]
#[verifier::external_body]
pub struct ExRegexError(regex::Error);

/// Whether the bytes are a valid pattern: UTF-8 text that the regex
/// crate compiles.
pub uninterp spec fn pattern_valid(p: Seq<u8>) -> bool;

/// The pattern a compiled regex was built from.
pub uninterp spec fn pattern_of(re: regex::bytes::Regex) -> Seq<u8>;

/// The non-overlapping matches of the pattern in the text, leftmost
/// first, each the fully matched byte string.
pub uninterp spec fn regex_matches(pattern: Seq<u8>, text: Seq<u8>) -> Seq<Seq<u8>>;

/// Relies on regex::bytes::Regex::new: compiles the pattern text, failing
/// exactly on text that is not UTF-8 or not valid pattern syntax.
#[verifier::external_body]
fn compile_pattern(pattern: &[u8]) -> (r: Option<regex::bytes::Regex>)
    ensures
        r is Some <==> pattern_valid(pattern@),
        r matches Some(re) ==> pattern_of(re) == pattern@,
{
    match core::str::from_utf8(pattern) {
        Ok(text) => regex::bytes::Regex::new(text).ok(),
        Err(_) => None,
    }
}

/// Relies on regex::bytes::Regex::find_iter and Match::as_bytes: the
/// successive non-overlapping matches in the haystack, in order.
#[verifier::external_body]
fn find_matches(re: &regex::bytes::Regex, text: &[u8]) -> (r: Vec<Vec<u8>>)
    ensures
        r.deep_view() == regex_matches(pattern_of(*re), text@),
{
    let mut out: Vec<Vec<u8>> = Vec::new();
    for m in re.find_iter(text) {
        out.push(m.as_bytes().to_vec());
    }
    out
}

/// Compiles the configured flag pattern, or reports it invalid.
pub fn compile_flag_pattern(pattern: &[u8]) -> (r: Option<regex::bytes::Regex>)
    ensures
        r is Some <==> pattern_valid(pattern@),
        r matches Some(re) ==> pattern_of(re) == pattern@,
{
    compile_pattern(pattern)
}

/// Whether the bytes compile as a pattern; how an edited pattern is
/// checked before it replaces the configured one.
pub fn pattern_is_valid(pattern: &[u8]) -> (r: bool)
    ensures
        r == pattern_valid(pattern@),
{
    let re = compile_pattern(pattern);
    re.is_some()
}

/// The candidate flags in one exploit's captured output: every
/// non-overlapping match of the flag pattern, in order of appearance.
pub fn flags_from_output(re: &regex::bytes::Regex, output: &[u8]) -> (r: Vec<Vec<u8>>)
    ensures
        r.deep_view() == regex_matches(pattern_of(*re), output@),
{
    find_matches(re, output)
}

} // verus!
