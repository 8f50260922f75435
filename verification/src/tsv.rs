//! Reading what the recognition engine prints: a table of tab-separated
//! rows, one for every element of the page, of which the rows of words are
//! gathered into lines.
//!
//! Each row has twelve fields: the level, the numbers of page, block,
//! paragraph, line and word, the left, top, width and height of the box,
//! the confidence and the text. The first row is a header.

use vstd::prelude::*;
use crate::csv::{is_space, is_space_spec, joined, lines_of, pieces, split_lines, split_on};
use crate::extract::{OcrLine, OcrWord, RecognizedLine, WordView};
use crate::text::{
    all_digits, chars_of, decimal_value, is_digit, lemma_decimal_value_grows,
    lemma_decimal_value_prefix, string_of, unsigned_part, zeros,
};

verus! {

/// The number of fields of a row.
pub const TSV_COLUMNS: usize = 12;

/// The level of the rows that describe words.
pub const WORD_LEVEL: i32 = 5;

/// A text without the white space at its start.
pub open spec fn trim_start_spec(text: Seq<char>) -> Seq<char>
    decreases text.len(),
{
    if text.len() > 0 && is_space_spec(text[0]) {
        trim_start_spec(text.skip(1))
    } else {
        text
    }
}

/// A text without the white space at its end.
pub open spec fn trim_end_spec(text: Seq<char>) -> Seq<char>
    decreases text.len(),
{
    if text.len() > 0 && is_space_spec(text.last()) {
        trim_end_spec(text.drop_last())
    } else {
        text
    }
}

/// A text without the white space at its start and at its end.
pub open spec fn trim_spec(text: Seq<char>) -> Seq<char> {
    trim_end_spec(trim_start_spec(text))
}

/// A text without the white space at its start and at its end.
#[verifier::loop_isolation(false)]
pub fn trim(text: &Vec<char>) -> (trimmed: Vec<char>)
    ensures
        trimmed@ == trim_spec(text@),
{
    let mut from: usize = 0;
    assert(text@.skip(0) =~= text@);
    while from < text.len() && is_space(text[from])
        invariant
            from <= text.len(),
            trim_start_spec(text@) == trim_start_spec(text@.skip(from as int)),
        decreases text.len() - from,
    {
        assert(text@.skip(from as int).skip(1) =~= text@.skip(from + 1));
        from += 1;
    }
    let ghost started = text@.skip(from as int);
    assert(trim_start_spec(text@) == started);
    let mut to: usize = text.len();
    assert(started.take(started.len() as int) =~= started);
    while to > from && is_space(text[to - 1])
        invariant
            from <= to <= text.len(),
            trim_end_spec(started) == trim_end_spec(started.take(to - from)),
        decreases to,
    {
        assert(started.take(to - from).last() == text@[to - 1]);
        assert(started.take(to - from).drop_last() =~= started.take(to - from - 1));
        to -= 1;
    }
    let ghost ended = started.take(to - from);
    assert(trim_end_spec(started) == ended) by {
        if to > from {
            assert(ended.last() == text@[to - 1]);
        }
    }
    let mut trimmed: Vec<char> = Vec::new();
    let mut i: usize = from;
    while i < to
        invariant
            from <= i <= to,
            trimmed@ == ended.take(i - from),
        decreases to - i,
    {
        trimmed.push(text[i]);
        assert(ended.take(i + 1 - from) =~= ended.take(i - from).push(text@[i as int]));
        i += 1;
    }
    assert(ended.take(to - from) =~= ended);
    trimmed
}

/// Whether a text begins with a minus sign.
pub open spec fn is_negative(text: Seq<char>) -> bool {
    text.len() > 0 && text[0] == '-'
}

/// A text without the sign, plus or minus, that may stand at its start.
pub open spec fn magnitude_part(text: Seq<char>) -> Seq<char> {
    if is_negative(text) {
        text.skip(1)
    } else {
        unsigned_part(text)
    }
}

/// The number that a text denotes as a signed decimal integer of 32 bits:
/// an optional sign, then one or more digits and nothing else, with a value
/// that fits. Any other text denotes no number.
pub open spec fn parse_i32_spec(text: Seq<char>) -> Option<i32> {
    let digits = magnitude_part(text);
    if digits.len() == 0 || !all_digits(digits) {
        None
    } else if is_negative(text) {
        if decimal_value(digits) > 0x8000_0000 {
            None
        } else {
            Some((-(decimal_value(digits) as int)) as i32)
        }
    } else if decimal_value(digits) > 0x7FFF_FFFF {
        None
    } else {
        Some(decimal_value(digits) as i32)
    }
}

/// What a field of the table counts as where it is read as a number: the
/// number it denotes, and -1 where it denotes none.
pub open spec fn number_or_minus_one(text: Seq<char>) -> int {
    match parse_i32_spec(text) {
        Some(n) => n as int,
        None => -1,
    }
}

/// Reads a signed decimal integer of 32 bits.
#[verifier::loop_isolation(false)]
pub fn parse_i32(text: &Vec<char>) -> (r: Option<i32>)
    ensures
        r == parse_i32_spec(text@),
{
    let negative = text.len() > 0 && text[0] == '-';
    let start: usize = if text.len() > 0 && (text[0] == '-' || text[0] == '+') {
        1
    } else {
        0
    };
    let ghost digits = magnitude_part(text@);
    assert(digits =~= text@.skip(start as int));
    if start >= text.len() {
        return None;
    }
    let limit: u64 = if negative {
        0x8000_0000
    } else {
        0x7FFF_FFFF
    };
    let mut value: u64 = 0;
    let mut i: usize = start;
    assert(digits.take(0) =~= Seq::<char>::empty());
    while i < text.len()
        invariant
            start <= i <= text.len(),
            forall|j: int| 0 <= j < i - start ==> is_digit(#[trigger] digits[j]),
            value == decimal_value(digits.take(i - start)),
            value <= limit,
        decreases text.len() - i,
    {
        let c = text[i];
        assert(c == digits[i - start]);
        if !(c >= '0' && c <= '9') {
            assert(!is_digit(digits[i - start]));
            return None;
        }
        proof {
            assert(digits.take(i + 1 - start) =~= digits.take(i - start).push(c));
            lemma_decimal_value_grows(digits.take(i - start), c);
        }
        value = value * 10 + (c as u32 - 48) as u64;
        if value > limit {
            proof {
                if all_digits(digits) {
                    lemma_decimal_value_prefix(digits, i + 1 - start);
                }
            }
            return None;
        }
        i += 1;
    }
    assert(digits.take(text.len() - start) =~= digits);
    if negative {
        Some((0 - value as i64) as i32)
    } else {
        Some(value as i32)
    }
}

/// Whether some digit of a text is not zero.
pub open spec fn has_nonzero(digits: Seq<char>) -> bool {
    exists|i: int| 0 <= i < digits.len() && #[trigger] digits[i] != '0'
}

/// The first six digits behind the decimal point, with zeros where there
/// are fewer.
pub open spec fn six_decimals(fraction: Seq<char>) -> Seq<char> {
    (fraction + zeros(6)).take(6)
}

/// The confidence, in millionths of a per cent, that a field denotes. The
/// field is a decimal number: an optional sign, digits, and optionally a
/// point and more digits, with a digit on at least one side of the point.
/// Digits behind the sixth decimal are cut off, and a confidence above what
/// 32 bits hold counts as the largest that they hold. Minus zero is zero.
/// A negative number, and a field that is no decimal number, denote no
/// confidence.
pub open spec fn parse_confidence_spec(text: Seq<char>) -> Option<u32> {
    let parts = pieces(magnitude_part(text), '.');
    let whole = parts[0];
    let fraction = if parts.len() == 2 {
        parts[1]
    } else {
        Seq::empty()
    };
    if parts.len() > 2 || !all_digits(whole) || !all_digits(fraction) || whole.len()
        + fraction.len() == 0 {
        None
    } else if is_negative(text) {
        if has_nonzero(whole) || has_nonzero(fraction) {
            None
        } else {
            Some(0u32)
        }
    } else {
        let millionths = decimal_value(whole) * 1_000_000 + decimal_value(six_decimals(fraction));
        if millionths > u32::MAX {
            Some(u32::MAX)
        } else {
            Some(millionths as u32)
        }
    }
}

/// Whether a text is made of digits only, and whether one of them is not
/// zero.
fn scan_digits(digits: &Vec<char>) -> (r: (bool, bool))
    ensures
        r.0 == all_digits(digits@),
        r.0 ==> r.1 == has_nonzero(digits@),
{
    let mut nonzero = false;
    let mut i: usize = 0;
    while i < digits.len()
        invariant
            i <= digits.len(),
            forall|j: int| 0 <= j < i ==> is_digit(#[trigger] digits@[j]),
            nonzero == (exists|j: int| 0 <= j < i && #[trigger] digits@[j] != '0'),
        decreases digits.len() - i,
    {
        let c = digits[i];
        if !(c >= '0' && c <= '9') {
            return (false, false);
        }
        if c != '0' {
            nonzero = true;
        }
        i += 1;
    }
    (true, nonzero)
}

/// The number that digits denote, or `cap` where that is less.
fn capped_value(digits: &Vec<char>, cap: u64) -> (value: u64)
    requires
        all_digits(digits@),
        cap <= 0xFFFF_FFFF_FFFF,
    ensures
        value == if decimal_value(digits@) > cap {
            cap as nat
        } else {
            decimal_value(digits@)
        },
{
    let mut value: u64 = 0;
    let mut i: usize = 0;
    assert(digits@.take(0) =~= Seq::<char>::empty());
    while i < digits.len()
        invariant
            i <= digits.len(),
            all_digits(digits@),
            cap <= 0xFFFF_FFFF_FFFF,
            value == decimal_value(digits@.take(i as int)),
            value <= cap,
        decreases digits.len() - i,
    {
        let c = digits[i];
        proof {
            assert(is_digit(digits@[i as int]));
            assert(digits@.take(i + 1) =~= digits@.take(i as int).push(c));
            lemma_decimal_value_grows(digits@.take(i as int), c);
        }
        value = value * 10 + (c as u32 - 48) as u64;
        if value > cap {
            proof {
                lemma_decimal_value_prefix(digits@, i + 1);
            }
            return cap;
        }
        i += 1;
    }
    assert(digits@.take(digits.len() as int) =~= digits@);
    value
}

/// The number that the first six decimals denote.
fn six_decimals_value(fraction: &Vec<char>) -> (value: u64)
    requires
        all_digits(fraction@),
    ensures
        value == decimal_value(six_decimals(fraction@)),
        value <= 999_999,
{
    let ghost six = six_decimals(fraction@);
    let mut value: u64 = 0;
    let mut i: usize = 0;
    assert(six.take(0) =~= Seq::<char>::empty());
    assert(pow10_bound(0, 0));
    while i < 6
        invariant
            i <= 6,
            all_digits(fraction@),
            six == six_decimals(fraction@),
            value == decimal_value(six.take(i as int)),
            pow10_bound(value as nat, i as nat),
        decreases 6 - i,
    {
        let c: char = if i < fraction.len() {
            fraction[i]
        } else {
            '0'
        };
        proof {
            assert(six[i as int] == c);
            if i < fraction.len() {
                assert(is_digit(fraction@[i as int]));
            }
            assert(six.take(i + 1) =~= six.take(i as int).push(c));
            lemma_decimal_value_grows(six.take(i as int), c);
        }
        value = value * 10 + (c as u32 - 48) as u64;
        i += 1;
    }
    assert(six.take(6) =~= six);
    value
}

/// A number of `digits` digits lies below ten to their number.
pub open spec fn pow10_bound(value: nat, digits: nat) -> bool {
    if digits == 0 {
        value == 0
    } else if digits == 1 {
        value <= 9
    } else if digits == 2 {
        value <= 99
    } else if digits == 3 {
        value <= 999
    } else if digits == 4 {
        value <= 9_999
    } else if digits == 5 {
        value <= 99_999
    } else {
        value <= 999_999
    }
}

/// Reads a confidence.
pub fn parse_confidence(text: &Vec<char>) -> (r: Option<u32>)
    ensures
        r == parse_confidence_spec(text@),
{
    let negative = text.len() > 0 && text[0] == '-';
    let start: usize = if text.len() > 0 && (text[0] == '-' || text[0] == '+') {
        1
    } else {
        0
    };
    let mut body: Vec<char> = Vec::new();
    let mut i: usize = start;
    while i < text.len()
        invariant
            start <= i <= text.len(),
            body@ == text@.skip(start as int).take(i - start),
        decreases text.len() - i,
    {
        body.push(text[i]);
        assert(text@.skip(start as int).take(i + 1 - start) =~= text@.skip(start as int).take(
            i - start,
        ).push(text@[i as int]));
        i += 1;
    }
    assert(body@ =~= magnitude_part(text@)) by {
        assert(text@.skip(start as int).take(text.len() - start) =~= text@.skip(start as int));
        assert(text@.skip(0) =~= text@);
    }
    let parts = split_on(&body, '.');
    let ghost cut = pieces(body@, '.');
    assert(forall|k: int| 0 <= k < parts@.len() ==> (#[trigger] parts@[k])@ == cut[k]);
    if parts.len() > 2 {
        return None;
    }
    let empty: Vec<char> = Vec::new();
    let whole = &parts[0];
    let fraction = if parts.len() == 2 {
        &parts[1]
    } else {
        &empty
    };
    let (whole_ok, whole_nonzero) = scan_digits(whole);
    let (fraction_ok, fraction_nonzero) = scan_digits(fraction);
    if !whole_ok || !fraction_ok || (whole.len() == 0 && fraction.len() == 0) {
        return None;
    }
    if negative {
        if whole_nonzero || fraction_nonzero {
            return None;
        }
        return Some(0);
    }
    let units = capped_value(whole, 5000);
    let decimals = six_decimals_value(fraction);
    let millionths: u64 = units * 1_000_000 + decimals;
    if millionths > u32::MAX as u64 {
        Some(u32::MAX)
    } else {
        Some(millionths as u32)
    }
}

/// The sum of the confidences of words.
pub open spec fn confidence_sum(words: Seq<WordView>) -> nat
    decreases words.len(),
{
    if words.len() == 0 {
        0
    } else {
        confidence_sum(words.drop_last()) + words.last().confidence
    }
}

/// The texts of words.
pub open spec fn word_texts(words: Seq<WordView>) -> Seq<Seq<char>> {
    words.map_values(|w: WordView| w.text)
}

/// The line made of the given words: its text is the words with a blank
/// between neighbours, its confidence the mean of theirs, rounded down; a
/// line without words has the confidence zero.
pub open spec fn line_of(words: Seq<WordView>) -> RecognizedLine {
    RecognizedLine {
        text: joined(word_texts(words), ' '),
        words,
        confidence: if words.len() == 0 {
            0
        } else {
            confidence_sum(words) / words.len()
        },
    }
}

/// The mathematical value of a list of words.
pub open spec fn words_view(words: Seq<OcrWord>) -> Seq<WordView> {
    words.map_values(|w: OcrWord| w@)
}

/// The mathematical value of a list of lines.
pub open spec fn recognized_view(lines: Seq<OcrLine>) -> Seq<RecognizedLine> {
    lines.map_values(|l: OcrLine| l@)
}

/// The sum of confidences is at most the largest confidence for every
/// word.
proof fn lemma_confidence_sum_bound(words: Seq<OcrWord>, upto: int)
    requires
        0 <= upto <= words.len(),
    ensures
        confidence_sum(words_view(words).take(upto)) <= 0xFFFF_FFFF * upto,
    decreases upto,
{
    if upto > 0 {
        lemma_confidence_sum_bound(words, upto - 1);
        assert(words_view(words).take(upto).drop_last() =~= words_view(words).take(upto - 1));
    }
}

/// The line made of the given words.
pub fn line_from_words(words: Vec<OcrWord>) -> (line: OcrLine)
    ensures
        line@ == line_of(words_view(words@)),
        line.words == words,
{
    let ghost all = words_view(words@);
    let mut text = String::new();
    let mut sum: u128 = 0;
    let mut i: usize = 0;
    assert(all.take(0) =~= Seq::<WordView>::empty());
    assert(word_texts(all.take(0)) =~= Seq::<Seq<char>>::empty());
    while i < words.len()
        invariant
            i <= words.len(),
            all == words_view(words@),
            text@ == joined(word_texts(all.take(i as int)), ' '),
            sum == confidence_sum(all.take(i as int)),
            sum <= 0xFFFF_FFFF * i,
        decreases words.len() - i,
    {
        let word = &words[i];
        proof {
            let before = all.take(i as int);
            let now = all.take(i + 1);
            assert(now.drop_last() =~= before);
            assert(now.last() == word@);
            assert(word_texts(now).drop_last() =~= word_texts(before));
            assert(word_texts(now).last() == word.text@);
            reveal_strlit(" ");
            assert(" "@ =~= seq![' ']);
        }
        if i > 0 {
            text.append(" ");
        }
        text.append(word.text.as_str());
        sum = sum + word.confidence as u128;
        i += 1;
    }
    assert(all.take(words.len() as int) =~= all);
    let confidence: u32 = if words.len() == 0 {
        0
    } else {
        let count = words.len() as u128;
        assert(sum / count <= 0xFFFF_FFFF) by (nonlinear_arith)
            requires
                sum <= 0xFFFF_FFFF * count,
                count > 0,
        ;
        (sum / count) as u32
    };
    OcrLine { text, words, confidence }
}

/// What a row of the table says.
pub ghost enum TsvRow {
    /// Nothing: the row has too few fields, describes no word, or has no
    /// text.
    Skipped,
    /// A word on the line with the given number; the word itself is left
    /// out where the row gives it no confidence.
    Word { line_num: int, word: Option<WordView> },
}

/// What a row of the table says.
pub open spec fn tsv_row_spec(row: Seq<char>) -> TsvRow {
    let cells = pieces(row, '\t');
    if cells.len() < 12 {
        TsvRow::Skipped
    } else if number_or_minus_one(cells[0]) != 5 {
        TsvRow::Skipped
    } else if trim_spec(cells[11]).len() == 0 {
        TsvRow::Skipped
    } else {
        TsvRow::Word {
            line_num: number_or_minus_one(cells[4]),
            word: match parse_confidence_spec(cells[10]) {
                Some(confidence) => Some(
                    WordView { text: trim_spec(cells[11]), confidence: confidence as nat },
                ),
                None => None,
            },
        }
    }
}

/// What has been read of the table: the lines that are complete, the number
/// of the line being read, and its words so far.
pub ghost struct TsvState {
    pub lines: Seq<RecognizedLine>,
    pub line_num: int,
    pub words: Seq<WordView>,
}

/// The complete lines together with the line being read, if it has words.
pub open spec fn flushed(lines: Seq<RecognizedLine>, words: Seq<WordView>) -> Seq<RecognizedLine> {
    if words.len() > 0 {
        lines.push(line_of(words))
    } else {
        lines
    }
}

/// The state after a row. A word with another line number than the one
/// being read completes that line, provided that its number is not
/// negative.
pub open spec fn tsv_step(s: TsvState, row: TsvRow) -> TsvState {
    match row {
        TsvRow::Skipped => s,
        TsvRow::Word { line_num, word } => {
            let turn = line_num != s.line_num && s.line_num >= 0;
            let lines = if turn {
                flushed(s.lines, s.words)
            } else {
                s.lines
            };
            let words = if turn {
                Seq::empty()
            } else {
                s.words
            };
            TsvState {
                lines,
                line_num,
                words: match word {
                    Some(w) => words.push(w),
                    None => words,
                },
            }
        },
    }
}

/// The state after the first `upto` rows, of which the first is the
/// header.
pub open spec fn tsv_state(rows: Seq<Seq<char>>, upto: nat) -> TsvState
    decreases upto,
{
    if upto <= 1 {
        TsvState { lines: Seq::empty(), line_num: -1, words: Seq::empty() }
    } else {
        tsv_step(tsv_state(rows, (upto - 1) as nat), tsv_row_spec(rows[upto - 1]))
    }
}

/// The lines that a table holds.
pub open spec fn parse_tsv_spec(tsv: Seq<char>) -> Seq<RecognizedLine> {
    let rows = lines_of(tsv);
    let end = tsv_state(rows, rows.len());
    flushed(end.lines, end.words)
}

/// A row of the table as read.
enum RowRead {
    Skipped,
    Word { line_num: i32, word: Option<OcrWord> },
}

impl RowRead {
    spec fn view(&self) -> TsvRow {
        match self {
            RowRead::Skipped => TsvRow::Skipped,
            RowRead::Word { line_num, word } => TsvRow::Word {
                line_num: *line_num as int,
                word: match word {
                    Some(w) => Some(w@),
                    None => None,
                },
            },
        }
    }
}

/// Reads a field as a number, or as -1 where it is none.
fn read_number(cell: &Vec<char>) -> (n: i32)
    ensures
        n == number_or_minus_one(cell@),
{
    match parse_i32(cell) {
        Some(n) => n,
        None => -1,
    }
}

/// Reads a row of the table.
fn read_row(row: &Vec<char>) -> (read: RowRead)
    ensures
        read.view() == tsv_row_spec(row@),
{
    let cells = split_on(row, '\t');
    let ghost cut = pieces(row@, '\t');
    assert(forall|k: int| 0 <= k < cells@.len() ==> (#[trigger] cells@[k])@ == cut[k]);
    if cells.len() < TSV_COLUMNS {
        return RowRead::Skipped;
    }
    if read_number(&cells[0]) != WORD_LEVEL {
        return RowRead::Skipped;
    }
    let text = trim(&cells[11]);
    if text.len() == 0 {
        return RowRead::Skipped;
    }
    let line_num = read_number(&cells[4]);
    let word = match parse_confidence(&cells[10]) {
        Some(confidence) => Some(OcrWord { text: string_of(&text), confidence }),
        None => None,
    };
    RowRead::Word { line_num, word }
}

/// Gathers the words of the table that the recognition engine printed into
/// lines. A line's confidence is the mean of the confidences of its words;
/// words without a confidence, and rows that describe no word, are left
/// out.
#[verifier::loop_isolation(false)]
pub fn parse_tsv_output(tsv: &str) -> (lines: Vec<OcrLine>)
    ensures
        recognized_view(lines@) == parse_tsv_spec(tsv@),
{
    let chars = chars_of(tsv);
    let rows = split_lines(&chars);
    let ghost all = lines_of(tsv@);
    let mut lines: Vec<OcrLine> = Vec::new();
    let mut current_line_num: i32 = -1;
    let mut current_words: Vec<OcrWord> = Vec::new();
    let mut i: usize = 0;
    assert(recognized_view(lines@) =~= Seq::<RecognizedLine>::empty());
    assert(words_view(current_words@) =~= Seq::<WordView>::empty());
    while i < rows.len()
        invariant
            i <= rows.len(),
            tsv_state(all, i as nat) == (TsvState {
                lines: recognized_view(lines@),
                line_num: current_line_num as int,
                words: words_view(current_words@),
            }),
        decreases rows.len() - i,
    {
        assert(rows@[i as int]@ == all[i as int]);
        if i > 0 {
            match read_row(&rows[i]) {
                RowRead::Skipped => {},
                RowRead::Word { line_num, word } => {
                    if line_num != current_line_num && current_line_num >= 0 {
                        if current_words.len() > 0 {
                            let ghost before = recognized_view(lines@);
                            let line = line_from_words(current_words);
                            lines.push(line);
                            assert(recognized_view(lines@) =~= before.push(line@));
                        }
                        current_words = Vec::new();
                        assert(words_view(current_words@) =~= Seq::<WordView>::empty());
                    }
                    current_line_num = line_num;
                    match word {
                        Some(w) => {
                            let ghost before = words_view(current_words@);
                            current_words.push(w);
                            assert(words_view(current_words@) =~= before.push(w@));
                        },
                        None => {},
                    }
                },
            }
        }
        i += 1;
    }
    if current_words.len() > 0 {
        let ghost before = recognized_view(lines@);
        let line = line_from_words(current_words);
        lines.push(line);
        assert(recognized_view(lines@) =~= before.push(line@));
    }
    lines
}

} // verus!
