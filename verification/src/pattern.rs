//! The matcher for score-like tokens. The pattern is a regular expression;
//! compiling and matching are the work of the `regex` crate, whose answers
//! are taken on trust and named here.

use vstd::prelude::*;
use regex::Regex;
use crate::score::ExtractError;

verus! {

/// A token is score-like if all of it is an integer with optional comma or
/// period group separators, or a run of dash characters.
pub const SCORE_PATTERN: &'static str =
    r"^((\d+[,.])*\d+|[\-\u{2014}\u{2013}\u{2015}\u{2500}\u{30FC}\u{4E00}]+)$";

/// `regex::Regex`, a compiled regular expression. Nothing is known of what
/// is inside it.
#[verifier::external_type_specification]
#[verifier::external_body]
pub struct ExRegex(regex::Regex);

/// `regex::Error`, the reason why a pattern was not compiled.
#[verifier::external_type_specification]
#[verifier::external_body]
pub struct ExRegexError(regex::Error);

/// Whether `regex::Regex::new` accepts `pattern`.
pub uninterp spec fn regex_compiles(pattern: Seq<char>) -> bool;

/// Whether the regular expression that `regex::Regex::new` compiles from
/// `pattern` matches somewhere in `haystack`.
pub uninterp spec fn regex_is_match(pattern: Seq<char>, haystack: Seq<char>) -> bool;

/// Whether a compiled regular expression matches somewhere in `haystack`:
/// the answer of `regex::Regex::is_match` for that expression. It goes with
/// the expression as it was built, options included, not with the pattern
/// alone.
pub uninterp spec fn regex_answers(re: Regex, haystack: Seq<char>) -> bool;

/// `regex::Regex::new` compiles a pattern with the options that the crate
/// sets where none are given. Taken on trust: whether it succeeds depends on
/// the pattern alone, and what the compiled expression answers depends on
/// the pattern and the haystack alone.
pub assume_specification[ regex::Regex::new ](re: &str) -> (r: Result<Regex, regex::Error>)
    ensures
        r is Ok <==> regex_compiles(re@),
        r matches Ok(compiled) ==> forall|haystack: Seq<char>|
            #[trigger] regex_answers(compiled, haystack) == regex_is_match(re@, haystack),
;

/// `regex::Regex::is_match` tells whether the expression matches anywhere in
/// the haystack. Taken on trust: the answer depends on the compiled
/// expression and the haystack alone.
pub assume_specification[ regex::Regex::is_match ](re: &Regex, haystack: &str) -> (b: bool)
    ensures
        b == regex_answers(*re, haystack@),
;

/// Whether a token is score-like.
pub open spec fn score_like(text: Seq<char>) -> bool {
    regex_is_match(SCORE_PATTERN@, text)
}

/// The compiled pattern for score-like tokens.
pub struct ScorePattern {
    re: Regex,
}

impl ScorePattern {
    #[verifier::type_invariant]
    spec fn holds_score_pattern(&self) -> bool {
        forall|haystack: Seq<char>| #[trigger]
            regex_answers(self.re, haystack) == regex_is_match(SCORE_PATTERN@, haystack)
    }

    /// Compiles the pattern. This fails only if the matcher rejects the
    /// pattern.
    pub fn new() -> (r: Result<ScorePattern, ExtractError>)
        ensures
            r is Ok <==> regex_compiles(SCORE_PATTERN@),
            r matches Err(e) ==> e == ExtractError::Pattern,
    {
        match Regex::new(SCORE_PATTERN) {
            Ok(re) => Ok(ScorePattern { re }),
            Err(_) => Err(ExtractError::Pattern),
        }
    }

    /// Whether `text` is score-like.
    pub fn is_score_like(&self, text: &str) -> (b: bool)
        ensures
            b == score_like(text@),
    {
        proof {
            use_type_invariant(self);
        }
        self.re.is_match(text)
    }
}

} // verus!
