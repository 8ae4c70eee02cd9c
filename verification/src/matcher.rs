//! Pattern matching on words, done by the `regex` crate.

use vstd::prelude::*;

verus! {

/// A compiled pattern of the `regex` crate, carried as it is.
#[verifier::external_type_specification]
#[verifier::external_body]
pub struct ExRegex(regex::Regex);

/// The `regex` crate's reason for refusing a pattern, carried as it is.
#[verifier::external_type_specification]
#[verifier::external_body]
pub struct ExRegexError(regex::Error);

/// Whether `regex::Regex::new` accepts `pattern`.
pub uninterp spec fn pattern_compiles(pattern: Seq<char>) -> bool;

/// The pattern text that a compiled regex was built from, as
/// `regex::Regex::as_str` reports it.
pub uninterp spec fn regex_pattern(re: regex::Regex) -> Seq<char>;

/// Whether the regex that `regex::Regex::new` makes of `pattern` finds a
/// match anywhere in `text`.
pub uninterp spec fn pattern_matches(pattern: Seq<char>, text: Seq<char>) -> bool;

/// Whether this regex finds a match anywhere in `text`, as
/// `regex::Regex::is_match` decides it. The answer belongs to the regex, not
/// to its pattern text: a regex built with other settings may answer
/// otherwise on the same text.
pub uninterp spec fn regex_accepts(re: regex::Regex, text: Seq<char>) -> bool;

/// Calls `regex::Regex::new`. Compilation depends on the pattern text alone:
/// it succeeds exactly on the patterns that `pattern_compiles` names, the
/// compiled regex remembers the text it was given, and its answers are those
/// that `pattern_matches` names for that text.
#[verifier::external_body]
pub(crate) fn compile_pattern(pattern: &str) -> (r: Result<regex::Regex, regex::Error>)
    ensures
        r is Ok <==> pattern_compiles(pattern@),
        r matches Ok(re) ==> regex_pattern(re) == pattern@,
        r matches Ok(re) ==> forall|text: Seq<char>|
            #[trigger] regex_accepts(re, text) == pattern_matches(pattern@, text),
{
    regex::Regex::new(pattern)
}

/// Calls `regex::Regex::is_match`. The answer depends on the regex and on
/// the text alone.
#[verifier::external_body]
pub(crate) fn regex_is_match(re: &regex::Regex, text: &str) -> (r: bool)
    ensures
        r == regex_accepts(*re, text@),
{
    re.is_match(text)
}

} // verus!
