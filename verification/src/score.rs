//! Single tokens of recognized text: which characters stand for a blank
//! score, and what number a token denotes.

use vstd::prelude::*;
use crate::text::{chars_of, decimal_value, is_digit, lemma_decimal_value_grows};

verus! {

/// Why a frame, or a token of it, yields no scores.
#[derive(Debug, Clone, Copy, PartialEq, Eq, Structural)]
pub enum ExtractError {
    /// The pattern for score-like tokens was not accepted by the matcher.
    Pattern,
    /// A token holds no digit at all.
    NoDigits,
    /// The digits of a token denote a number above `u32::MAX`.
    Overflow,
    /// A single-row region holds no usable score.
    NoScores,
    /// Fewer than three rows were found; the field is their number.
    MissingStages(usize),
}

/// The characters that stand for a blank score: the hyphen, the em dash,
/// the en dash, the horizontal bar, the box-drawing horizontal line, the
/// katakana prolonged sound mark and the ideograph for "one".
pub open spec fn is_dash_char_spec(c: char) -> bool {
    c == '-' || c == '\u{2014}' || c == '\u{2013}' || c == '\u{2015}' || c == '\u{2500}' || c
        == '\u{30FC}' || c == '\u{4E00}'
}

/// Whether `c` stands for a blank score.
#[verifier::when_used_as_spec(is_dash_char_spec)]
pub fn is_dash_char(c: char) -> (b: bool)
    ensures
        b == is_dash_char_spec(c),
{
    c == '-' || c == '\u{2014}' || c == '\u{2013}' || c == '\u{2015}' || c == '\u{2500}' || c
        == '\u{30FC}' || c == '\u{4E00}'
}

/// The characters that a recognizer may put in the place of a dash: the dash
/// characters themselves and a few strokes and brackets.
pub open spec fn is_confusable_spec(c: char) -> bool {
    is_dash_char_spec(c) || c == 'I' || c == 'l' || c == '|' || c == '_' || c == '~' || c == '='
        || c == '/' || c == '\\' || c == '(' || c == ')' || c == '[' || c == ']'
}

/// Whether `c` may stand in the place of a dash.
#[verifier::when_used_as_spec(is_confusable_spec)]
pub fn is_confusable(c: char) -> (b: bool)
    ensures
        b == is_confusable_spec(c),
{
    is_dash_char(c) || c == 'I' || c == 'l' || c == '|' || c == '_' || c == '~' || c == '=' || c
        == '/' || c == '\\' || c == '(' || c == ')' || c == '[' || c == ']'
}

/// A garbled dash: one to three characters, each of them confusable with a
/// dash.
pub open spec fn is_dash_like_spec(text: Seq<char>) -> bool {
    &&& 1 <= text.len() <= 3
    &&& forall|i: int| 0 <= i < text.len() ==> is_confusable_spec(#[trigger] text[i])
}

/// Whether `text` looks like a dash that the recognizer garbled.
pub fn is_dash_like(text: &str) -> (b: bool)
    ensures
        b == is_dash_like_spec(text@),
{
    let chars = chars_of(text);
    if chars.len() == 0 || chars.len() > 3 {
        return false;
    }
    let mut i: usize = 0;
    while i < chars.len()
        invariant
            i <= chars.len(),
            chars@ == text@,
            forall|j: int| 0 <= j < i ==> is_confusable_spec(#[trigger] text@[j]),
        decreases chars.len() - i,
    {
        if !is_confusable(chars[i]) {
            return false;
        }
        i += 1;
    }
    true
}

/// Every character of `text` is a dash character. The empty text counts.
pub open spec fn all_dashes(text: Seq<char>) -> bool {
    forall|i: int| 0 <= i < text.len() ==> is_dash_char_spec(#[trigger] text[i])
}

/// The ASCII digits of `text`, in order; everything else is left out.
pub open spec fn digits_of(text: Seq<char>) -> Seq<char> {
    text.filter(|c: char| is_digit(c))
}

/// The number that a token denotes: zero for a run of dash characters; else
/// the number written by its digits, whatever separates them. A token
/// without digits and a number above `u32::MAX` are errors.
pub open spec fn parse_score_spec(text: Seq<char>) -> Result<u32, ExtractError> {
    if all_dashes(text) {
        Ok(0u32)
    } else if digits_of(text).len() == 0 {
        Err(ExtractError::NoDigits)
    } else if decimal_value(digits_of(text)) > u32::MAX {
        Err(ExtractError::Overflow)
    } else {
        Ok(decimal_value(digits_of(text)) as u32)
    }
}

/// The text without its commas.
pub open spec fn without_commas(text: Seq<char>) -> Seq<char> {
    text.filter(|c: char| c != ',')
}

/// Commas hold no digit: taking them out leaves the digits as they are.
pub proof fn lemma_digits_without_commas(text: Seq<char>)
    ensures
        digits_of(without_commas(text)) == digits_of(text),
    decreases text.len(),
{
    let digit = |c: char| is_digit(c);
    let kept = |c: char| c != ',';
    if text.len() == 0 {
        Seq::lemma_filter_len(text, kept);
        assert(without_commas(text) =~= text);
    } else {
        let init = text.drop_last();
        let c = text.last();
        assert(text =~= init.push(c));
        lemma_digits_without_commas(init);
        Seq::lemma_filter_push(init, c, kept);
        Seq::lemma_filter_push(init, c, digit);
        if c != ',' {
            Seq::lemma_filter_push(init.filter(kept), c, digit);
        }
    }
}

/// A text of dash characters holds no comma.
pub proof fn lemma_dashes_hold_no_comma(text: Seq<char>)
    requires
        all_dashes(text),
    ensures
        without_commas(text) == text,
    decreases text.len(),
{
    let kept = |c: char| c != ',';
    if text.len() == 0 {
        Seq::lemma_filter_len(text, kept);
        assert(without_commas(text) =~= text);
    } else {
        let init = text.drop_last();
        let c = text.last();
        assert(text =~= init.push(c));
        assert(all_dashes(init)) by {
            assert forall|i: int| 0 <= i < init.len() implies is_dash_char_spec(
                #[trigger] init[i],
            ) by {
                assert(init[i] == text[i]);
            }
        }
        lemma_dashes_hold_no_comma(init);
        Seq::lemma_filter_push(init, c, kept);
        assert(is_dash_char_spec(text[text.len() - 1]));
    }
}

/// Commas that group digits change nothing: a token denotes the same number
/// with and without them. The one exception is a token that is nothing but
/// dash characters once its commas are gone, and has a comma.
pub proof fn lemma_commas_are_ignored(text: Seq<char>)
    requires
        all_dashes(without_commas(text)) ==> all_dashes(text),
    ensures
        parse_score_spec(without_commas(text)) == parse_score_spec(text),
{
    lemma_digits_without_commas(text);
    if all_dashes(text) {
        lemma_dashes_hold_no_comma(text);
    }
}

/// A token with a digit denotes the same number with and without commas.
pub proof fn lemma_commas_between_digits(text: Seq<char>, at: int)
    requires
        0 <= at < text.len(),
        is_digit(text[at]),
    ensures
        parse_score_spec(without_commas(text)) == parse_score_spec(text),
{
    let kept = |c: char| c != ',';
    assert(!is_dash_char_spec(text[at]));
    assert(kept(text[at]));
    Seq::lemma_filter_contains(text, kept, at);
    let stripped = without_commas(text);
    let j = choose|j: int| 0 <= j < stripped.len() && stripped[j] == text[at];
    assert(!is_dash_char_spec(stripped[j]));
    lemma_commas_are_ignored(text);
}

/// Whether every character of `chars` is a dash character.
fn only_dashes(chars: &Vec<char>) -> (b: bool)
    ensures
        b == all_dashes(chars@),
{
    let mut i: usize = 0;
    while i < chars.len()
        invariant
            i <= chars.len(),
            forall|j: int| 0 <= j < i ==> is_dash_char_spec(#[trigger] chars@[j]),
        decreases chars.len() - i,
    {
        if !is_dash_char(chars[i]) {
            return false;
        }
        i += 1;
    }
    true
}

/// Reads the number that a token denotes. Group separators are passed over,
/// and a run of dash characters reads as zero.
pub fn parse_score(text: &str) -> (r: Result<u32, ExtractError>)
    ensures
        r == parse_score_spec(text@),
        all_dashes(text@) ==> r == Ok::<u32, ExtractError>(0u32),
{
    let chars = chars_of(text);
    if only_dashes(&chars) {
        return Ok(0);
    }
    let ghost pred = |c: char| is_digit(c);
    let mut count: usize = 0;
    let mut value: u64 = 0;
    let mut overflow = false;
    let mut i: usize = 0;
    assert(chars@.take(0) =~= Seq::<char>::empty());
    while i < chars.len()
        invariant
            i <= chars.len(),
            chars@ == text@,
            pred == (|c: char| is_digit(c)),
            count == chars@.take(i as int).filter(pred).len(),
            count <= i,
            overflow == (decimal_value(chars@.take(i as int).filter(pred)) > u32::MAX),
            !overflow ==> value == decimal_value(chars@.take(i as int).filter(pred)),
        decreases chars.len() - i,
    {
        let c = chars[i];
        proof {
            let before = chars@.take(i as int);
            assert(chars@.take(i + 1) =~= before.push(c));
            Seq::lemma_filter_push(before, c, pred);
            if is_digit(c) {
                lemma_decimal_value_grows(before.filter(pred), c);
            }
        }
        if c >= '0' && c <= '9' {
            count += 1;
            if !overflow {
                let d: u64 = (c as u32 - 48) as u64;
                value = value * 10 + d;
                if value > u32::MAX as u64 {
                    overflow = true;
                }
            }
        }
        i += 1;
    }
    assert(chars@.take(chars.len() as int) =~= chars@);
    if count == 0 {
        Err(ExtractError::NoDigits)
    } else if overflow {
        Err(ExtractError::Overflow)
    } else {
        Ok(value as u32)
    }
}

} // verus!
