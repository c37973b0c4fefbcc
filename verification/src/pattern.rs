//! Regular expressions of the `regex` crate: compiling a pattern and testing a haystack.

use vstd::prelude::*;

verus! {

/// `regex::Regex`, a compiled regular expression; opaque here.
#[verifier::external_type_specification]
#[verifier::external_body]
pub struct ExRegex(regex::Regex);

/// `regex::Error`, why a pattern did not compile; opaque here and only carried to the caller.
#[verifier::external_type_specification]
#[verifier::external_body]
pub struct ExRegexError(regex::Error);

/// Whether `regex::Regex::new` accepts `pattern` (its syntax is valid and the compiled program
/// stays within the default size limit). A property of the pattern text alone.
pub uninterp spec fn regex_compiles(pattern: Seq<char>) -> bool;

/// Whether the regex compiled from `pattern` finds a match anywhere in `haystack`, as
/// `regex::Regex::is_match` reports it.
pub uninterp spec fn regex_is_match(pattern: Seq<char>, haystack: Seq<char>) -> bool;

/// The text of the error that `regex::Regex::new` gives for `pattern` (its `Display`), when it
/// fails. A property of the pattern text alone.
pub uninterp spec fn regex_error_text(pattern: Seq<char>) -> Seq<char>;

/// Why a pattern did not compile: the `regex` crate's error, and its text.
#[derive(Debug)]
pub struct PatternFailure {
    pub error: regex::Error,
    pub text: String,
}

/// Calls `regex::Regex::new`, and on failure converts the error to its text as well.
/// Claimed: it succeeds exactly when `regex_compiles(pattern)`, and the text of a failure is
/// `regex_error_text(pattern)`.
#[verifier::external_body]
fn regex_new(pattern: &str) -> (r: Result<regex::Regex, PatternFailure>)
    ensures
        r is Ok <==> regex_compiles(pattern@),
        r matches Err(f) ==> f.text@ == regex_error_text(pattern@),
{
    match regex::Regex::new(pattern) {
        Ok(regex) => Ok(regex),
        Err(error) => {
            let text = error.to_string();
            Err(PatternFailure { error, text })
        },
    }
}

/// A compiled regular expression together with the text it was compiled from.
pub struct Pattern {
    regex: regex::Regex,
    source: Ghost<Seq<char>>,
}

impl Pattern {
    pub closed spec fn source(&self) -> Seq<char> {
        self.source@
    }

    /// Compiles `pattern`; fails exactly when the `regex` crate rejects it.
    pub fn compile(pattern: &str) -> (r: Result<Pattern, PatternFailure>)
        ensures
            r is Ok <==> regex_compiles(pattern@),
            r matches Err(f) ==> f.text@ == regex_error_text(pattern@),
            r matches Ok(p) ==> p.source() == pattern@,
    {
        match regex_new(pattern) {
            Ok(regex) => Ok(Pattern { regex, source: Ghost(pattern@) }),
            Err(e) => Err(e),
        }
    }

    /// Calls `regex::Regex::is_match` on the compiled regex. Claimed: the result is
    /// `regex_is_match(self.source(), haystack)`. This rests on `Pattern::compile` being the
    /// only constructor, so that the regex was always compiled from `self.source()`.
    #[verifier::external_body]
    pub(crate) fn is_match(&self, haystack: &str) -> (r: bool)
        ensures
            r == regex_is_match(self.source(), haystack@),
    {
        self.regex.is_match(haystack)
    }
}

/// Checks that `pattern` compiles, without keeping the compiled regex.
pub fn check_pattern(pattern: &str) -> (r: Result<(), PatternFailure>)
    ensures
        r is Ok <==> regex_compiles(pattern@),
        r matches Err(f) ==> f.text@ == regex_error_text(pattern@),
{
    match Pattern::compile(pattern) {
        Ok(_) => Ok(()),
        Err(e) => Err(e),
    }
}

} // verus!
