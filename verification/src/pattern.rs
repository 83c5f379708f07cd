//! Regular-expression matching, exposed to scripts as `regex_match`.
//!
//! Compiling and running a pattern is the work of the `fancy_regex` engine.
//! Its verdicts are given names here, and everything this module proves is
//! stated over those names.

use fancy_regex::Error;
use fancy_regex::Regex;
use vstd::prelude::*;

verus! {

/// `fancy_regex::Regex`, a compiled expression.  Opaque here.
#[verifier::external_type_specification]
#[verifier::external_body]
pub struct ExRegex(Regex);

/// `fancy_regex::Error`, the engine's error.  Opaque here.
#[verifier::external_type_specification]
#[verifier::external_body]
pub struct ExRegexError(Error);

/// Whether the engine accepts `pattern` under its default options.
pub uninterp spec fn pattern_compiles(pattern: Seq<char>) -> bool;

/// The text that `fancy_regex::Regex::as_str` gives for a compiled
/// expression: the pattern it was built from.
pub uninterp spec fn pattern_text(re: Regex) -> Seq<char>;

/// What the engine answers when `pattern`, compiled under the default
/// options, is run against `subject`: `Some(found)` when the search ends,
/// `None` when the engine gives up (its backtracking or stack limit).
pub uninterp spec fn engine_verdict(pattern: Seq<char>, subject: Seq<char>) -> Option<bool>;

/// Why a call of [`regex_match`] failed.
#[derive(Debug, Clone, PartialEq, Eq)]
pub enum PatternError {
    /// The pattern is not a well-formed expression; the text is the engine's
    /// description of the fault.
    Malformed(String),
    /// The pattern compiled, but the engine gave up while matching.
    MatchFailed(String),
}

/// Calls `fancy_regex::Regex::new`.
///
/// Trusted: the call succeeds exactly on the patterns named by
/// [`pattern_compiles`], and the compiled expression remembers the text it
/// was built from.
#[verifier::external_body]
fn compile(pattern: &str) -> (r: Result<Regex, Error>)
    ensures
        r.is_ok() == pattern_compiles(pattern@),
        r matches Ok(re) ==> pattern_text(re) == pattern@,
{
    Regex::new(pattern)
}

/// Calls `fancy_regex::Regex::is_match` on a string subject.
///
/// Trusted: the answer is the one named by [`engine_verdict`] for the
/// expression's pattern text and the subject.
#[verifier::external_body]
fn is_match(re: &Regex, subject: &str) -> (r: Result<bool, Error>)
    ensures
        match r {
            Ok(found) => engine_verdict(pattern_text(*re), subject@) == Some(found),
            Err(_) => engine_verdict(pattern_text(*re), subject@).is_none(),
        },
{
    re.is_match(subject)
}

/// Renders a `fancy_regex::Error` through its `Display` impl.
///
/// Trusted: nothing is claimed of the text.
#[verifier::external_body]
fn describe(error: &Error) -> String {
    format!("{}", error)
}

/// What the engine said of one pattern and one subject.
#[derive(Debug, Clone, PartialEq, Eq)]
pub enum EngineAnswer {
    /// The pattern did not compile; the text describes the fault.
    Rejected(String),
    /// The pattern compiled and the search ended with this verdict.
    Found(bool),
    /// The pattern compiled and the engine gave up on the search; the text
    /// describes the limit it ran into.
    GaveUp(String),
}

/// Whether `answer` is what the engine says of `pattern` and `subject`, up
/// to the wording of its texts.
pub open spec fn answers(pattern: Seq<char>, subject: Seq<char>, answer: EngineAnswer) -> bool {
    match answer {
        EngineAnswer::Rejected(_) => !pattern_compiles(pattern),
        EngineAnswer::Found(found) => pattern_compiles(pattern) && engine_verdict(pattern, subject)
            == Some(found),
        EngineAnswer::GaveUp(_) => pattern_compiles(pattern) && engine_verdict(pattern, subject)
            is None,
    }
}

/// The result of a match for each answer of the engine.
pub open spec fn answer_result(answer: EngineAnswer) -> Result<bool, PatternError> {
    match answer {
        EngineAnswer::Rejected(text) => Err(PatternError::Malformed(text)),
        EngineAnswer::Found(found) => Ok(found),
        EngineAnswer::GaveUp(text) => Err(PatternError::MatchFailed(text)),
    }
}

/// Compiles `pattern` and runs it against `subject`.
pub fn ask_engine(pattern: &str, subject: &str) -> (answer: EngineAnswer)
    ensures
        answers(pattern@, subject@, answer),
{
    match compile(pattern) {
        Err(e) => EngineAnswer::Rejected(describe(&e)),
        Ok(re) => match is_match(&re, subject) {
            Ok(found) => EngineAnswer::Found(found),
            Err(e) => EngineAnswer::GaveUp(describe(&e)),
        },
    }
}

/// Turns an answer of the engine into the result of a match: a verdict is
/// passed on, and both a rejected pattern and an abandoned search are
/// errors.
pub fn result_of_answer(answer: EngineAnswer) -> (r: Result<bool, PatternError>)
    ensures
        r == answer_result(answer),
{
    match answer {
        EngineAnswer::Rejected(text) => Err(PatternError::Malformed(text)),
        EngineAnswer::Found(found) => Ok(found),
        EngineAnswer::GaveUp(text) => Err(PatternError::MatchFailed(text)),
    }
}

/// The result that [`regex_match`] owes for a pattern and a subject, up to
/// the wording of the error text.
pub open spec fn match_outcome(
    pattern: Seq<char>,
    subject: Seq<char>,
    r: Result<bool, PatternError>,
) -> bool {
    if !pattern_compiles(pattern) {
        r matches Err(PatternError::Malformed(_))
    } else {
        match engine_verdict(pattern, subject) {
            Some(found) => r == Ok::<bool, PatternError>(found),
            None => r matches Err(PatternError::MatchFailed(_)),
        }
    }
}

/// Tests whether `subject` matches `pattern`.
///
/// The pattern is compiled afresh on every call.  A pattern that does not
/// compile is an error, never `false`.
pub fn regex_match(pattern: &str, subject: &str) -> (r: Result<bool, PatternError>)
    ensures
        match_outcome(pattern@, subject@, r),
{
    result_of_answer(ask_engine(pattern, subject))
}

} // verus!
