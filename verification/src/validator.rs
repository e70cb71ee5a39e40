//! The destination policy: one compiled allow-pattern, asked about each
//! CONNECT target.

use regex::Regex;
use vstd::prelude::*;

verus! {

/// `regex::Regex`, a compiled expression. It is held and handed on as an
/// opaque value; what is known of one is what the names below say.
#[verifier::external_type_specification]
#[verifier::external_body]
pub struct ExRegex(regex::Regex);

/// `regex::Error`, the reason a pattern did not compile. It is only ever
/// turned into text.
#[verifier::external_type_specification]
#[verifier::external_body]
pub struct ExRegexError(regex::Error);

/// Whether `regex::Regex::new` accepts `pattern`: its syntax is valid and the
/// compiled program stays within the default size limit.
pub uninterp spec fn pattern_compiles(pattern: Seq<char>) -> bool;

/// What `regex::Regex::as_str` returns: the pattern text that the compiled
/// expression was built from.
pub uninterp spec fn regex_source(regex: Regex) -> Seq<char>;

/// What `regex::Regex::is_match` returns: whether the compiled expression
/// matches anywhere in `text`.
pub uninterp spec fn regex_matches(regex: Regex, text: Seq<char>) -> bool;

/// Calls `regex::Regex::new`. Trusted: it succeeds exactly on the patterns
/// named by `pattern_compiles`, and the expression it returns keeps the text
/// it was given as its source.
#[verifier::external_body]
fn compile(pattern: &str) -> (r: Result<Regex, regex::Error>)
    ensures
        r is Ok <==> pattern_compiles(pattern@),
        r matches Ok(regex) ==> regex_source(regex) == pattern@,
{
    Regex::new(pattern)
}

/// Calls `regex::Regex::as_str`. Trusted: the text it returns depends on the
/// expression alone.
#[verifier::external_body]
fn source(regex: &Regex) -> (text: &str)
    ensures
        text@ == regex_source(*regex),
{
    regex.as_str()
}

/// Calls `regex::Regex::is_match`. Trusted: the answer depends on the
/// expression and on the text alone.
#[verifier::external_body]
fn is_match(regex: &Regex, text: &str) -> (b: bool)
    ensures
        b == regex_matches(*regex, text@),
{
    regex.is_match(text)
}

/// Renders a `regex::Error` through its `Display` impl. Nothing is claimed
/// about the text.
#[verifier::external_body]
fn error_text(error: &regex::Error) -> String {
    error.to_string()
}

/// Why a pattern could not be turned into a validator.
#[derive(Debug, PartialEq, Eq)]
pub enum PatternError {
    /// The pattern did not compile; the text is the compiler's explanation.
    Invalid(String),
}

/// Decides which CONNECT targets may be tunnelled to.
///
/// It is built once from the operator's pattern and never changes, so any
/// number of connections can share one value by reference.
pub struct DestinationValidator {
    regex: Regex,
}

impl DestinationValidator {
    /// The pattern text this validator was built from.
    pub closed spec fn pattern(&self) -> Seq<char> {
        regex_source(self.regex)
    }

    /// Whether `target` is an allowed destination: the pattern matches
    /// somewhere in it.
    pub closed spec fn accepts(&self, target: Seq<char>) -> bool {
        regex_matches(self.regex, target)
    }

    /// Compiles `pattern` into a validator. A pattern that does not compile
    /// is refused, with the reason as text.
    pub fn new(pattern: &str) -> (r: Result<DestinationValidator, PatternError>)
        ensures
            r is Ok <==> pattern_compiles(pattern@),
            r matches Ok(v) ==> v.pattern() == pattern@,
    {
        match compile(pattern) {
            Ok(regex) => Ok(DestinationValidator { regex }),
            Err(error) => Err(PatternError::Invalid(error_text(&error))),
        }
    }

    /// The pattern text this validator was built from.
    pub fn as_str(&self) -> (text: &str)
        ensures
            text@ == self.pattern(),
    {
        source(&self.regex)
    }

    /// Tests `target` against the pattern. The target is taken exactly as
    /// given; nothing is trimmed, folded or decoded first.
    pub fn matches(&self, target: &str) -> (b: bool)
        ensures
            b == self.accepts(target@),
    {
        is_match(&self.regex, target)
    }
}

} // verus!
