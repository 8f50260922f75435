//! Multi-pass recovery of scores from the lines that the recognizer returned
//! for one captured frame.
//!
//! The recognizer is unreliable: a dash that marks a blank score may come
//! back as a dash, as a stroke or bracket, or not at all. Rows are therefore
//! looked for in three passes of growing tolerance.

use vstd::prelude::*;
use crate::pattern::{regex_compiles, score_like, ScorePattern, SCORE_PATTERN};
use crate::score::{is_dash_like, is_dash_like_spec, parse_score, parse_score_spec, ExtractError};

verus! {

/// One per cent of confidence. Confidences are kept in millionths of a per
/// cent, so that the mean of the confidences that a recognizer prints with
/// six decimals is exact.
pub const CONFIDENCE_UNIT: u32 = 1_000_000;

/// The confidence below which a line is not looked at: 60 per cent.
pub const MIN_CONFIDENCE: u32 = 60_000_000;

/// In a region cropped to one row, numbers below this are recognizer noise.
pub const NOISE_FLOOR: u32 = 100;

/// One recognized word with its confidence, in [`CONFIDENCE_UNIT`]s.
#[derive(Debug, Clone, PartialEq)]
pub struct OcrWord {
    pub text: String,
    pub confidence: u32,
}

/// One recognized line: its text, its words in reading order and its
/// confidence, in [`CONFIDENCE_UNIT`]s. A recognizer's line has the mean of
/// the confidences of its words.
#[derive(Debug, Clone, PartialEq)]
pub struct OcrLine {
    pub text: String,
    pub words: Vec<OcrWord>,
    pub confidence: u32,
}

/// The mathematical value of an [`OcrWord`].
pub ghost struct WordView {
    pub text: Seq<char>,
    pub confidence: nat,
}

/// The mathematical value of an [`OcrLine`].
pub ghost struct RecognizedLine {
    pub text: Seq<char>,
    pub words: Seq<WordView>,
    pub confidence: nat,
}

impl View for OcrWord {
    type V = WordView;

    open spec fn view(&self) -> WordView {
        WordView { text: self.text@, confidence: self.confidence as nat }
    }
}

impl View for OcrLine {
    type V = RecognizedLine;

    open spec fn view(&self) -> RecognizedLine {
        RecognizedLine {
            text: self.text@,
            words: self.words@.map_values(|w: OcrWord| w@),
            confidence: self.confidence as nat,
        }
    }
}

/// A word together with the verdict of the score pattern on it.
#[derive(Debug, Clone, PartialEq)]
pub struct Token {
    pub text: String,
    pub score_like: bool,
}

/// A line whose words have been put before the score pattern.
#[derive(Debug, Clone, PartialEq)]
pub struct TokenLine {
    pub tokens: Vec<Token>,
    pub confidence: u32,
}

/// The mathematical value of a [`Token`].
pub ghost struct TokenView {
    pub text: Seq<char>,
    pub score_like: bool,
}

/// The mathematical value of a [`TokenLine`].
pub ghost struct LineView {
    pub tokens: Seq<TokenView>,
    pub confidence: nat,
}

impl View for Token {
    type V = TokenView;

    open spec fn view(&self) -> TokenView {
        TokenView { text: self.text@, score_like: self.score_like }
    }
}

impl View for TokenLine {
    type V = LineView;

    open spec fn view(&self) -> LineView {
        LineView {
            tokens: self.tokens@.map_values(|t: Token| t@),
            confidence: self.confidence as nat,
        }
    }
}

/// The mathematical value of a list of token lines.
pub open spec fn lines_view(lines: Seq<TokenLine>) -> Seq<LineView> {
    lines.map_values(|l: TokenLine| l@)
}

/// The three passes of row extraction.
#[derive(Debug, Clone, Copy, PartialEq, Eq, Structural)]
pub enum Pass {
    /// Exactly three score-like tokens.
    Strict,
    /// Exactly three tokens that are score-like or a garbled dash.
    DegradedDash,
    /// One or two score-like tokens, on lines after the last matched row.
    DroppedDash,
}

/// Whether a pass counts a token: score-like tokens always, garbled dashes
/// in the second pass.
pub open spec fn takes(pass: Pass, t: TokenView) -> bool {
    t.score_like || (pass == Pass::DegradedDash && is_dash_like_spec(t.text))
}

/// The number of tokens of a line that a pass counts.
pub open spec fn slot_count(pass: Pass, tokens: Seq<TokenView>) -> nat {
    tokens.filter(|t: TokenView| takes(pass, t)).len()
}

/// The number a counted token stands for: what a score-like token denotes,
/// zero for a garbled dash.
pub open spec fn token_value(t: TokenView) -> Result<u32, ExtractError> {
    if t.score_like {
        parse_score_spec(t.text)
    } else {
        Ok(0u32)
    }
}

/// The values of the tokens that a pass counts, from position `from` on,
/// left to right, after those already `found`. The first token that denotes
/// no number makes the whole an error.
pub open spec fn row_values(pass: Pass, tokens: Seq<TokenView>, from: nat, found: Seq<u32>) -> Result<
    Seq<u32>,
    ExtractError,
>
    decreases tokens.len() - from,
{
    if from >= tokens.len() {
        Ok(found)
    } else if takes(pass, tokens[from as int]) {
        match token_value(tokens[from as int]) {
            Err(e) => Err(e),
            Ok(v) => row_values(pass, tokens, from + 1, found.push(v)),
        }
    } else {
        row_values(pass, tokens, from + 1, found)
    }
}

/// A row of three cells: the first three of `values`, then zeros.
pub open spec fn pad_row(values: Seq<u32>) -> Seq<u32> {
    Seq::new(
        3,
        |j: int|
            if j < values.len() {
                values[j]
            } else {
                0u32
            },
    )
}

/// How many counted tokens a pass wants on a line.
pub open spec fn accepts(pass: Pass, count: nat) -> bool {
    match pass {
        Pass::Strict | Pass::DegradedDash => count == 3,
        Pass::DroppedDash => 1 <= count <= 2,
    }
}

/// What a line offers a pass: nothing, a row, or an error where one of its
/// counted tokens denotes no number.
pub open spec fn candidate(pass: Pass, line: LineView) -> Option<Result<Seq<u32>, ExtractError>> {
    if line.confidence >= MIN_CONFIDENCE && accepts(pass, slot_count(pass, line.tokens)) {
        Some(
            match row_values(pass, line.tokens, 0, Seq::empty()) {
                Ok(values) => Ok(pad_row(values)),
                Err(e) => Err(e),
            },
        )
    } else {
        None
    }
}

/// What the passes have gathered: the rows in the order they were found,
/// the lines consumed, and the index after the last consumed line.
pub ghost struct Progress {
    pub rows: Seq<Seq<u32>>,
    pub used: Set<int>,
    pub frontier: nat,
}

impl Progress {
    /// Nothing gathered yet.
    pub open spec fn start() -> Progress {
        Progress { rows: Seq::empty(), used: Set::empty(), frontier: 0 }
    }

    /// The progress after the line `index` gave `row`.
    pub open spec fn with_row(self, row: Seq<u32>, index: nat) -> Progress {
        Progress {
            rows: self.rows.push(row),
            used: self.used.insert(index as int),
            frontier: if index + 1 > self.frontier {
                index + 1
            } else {
                self.frontier
            },
        }
    }
}

/// One pass over the lines from index `from` on. It stops when three rows
/// are there. Lines already consumed and lines before `start` are passed
/// over; every other line that offers a row is consumed.
pub open spec fn run_pass(pass: Pass, lines: Seq<LineView>, start: nat, from: nat, p: Progress) -> Result<
    Progress,
    ExtractError,
>
    decreases lines.len() - from,
{
    if from >= lines.len() || p.rows.len() >= 3 {
        Ok(p)
    } else if p.used.contains(from as int) || from < start {
        run_pass(pass, lines, start, from + 1, p)
    } else {
        match candidate(pass, lines[from as int]) {
            None => run_pass(pass, lines, start, from + 1, p),
            Some(Err(e)) => Err(e),
            Some(Ok(row)) => run_pass(pass, lines, start, from + 1, p.with_row(row, from)),
        }
    }
}

/// What the strict pass and, where that leaves rows missing, the
/// degraded-dash pass gather.
pub open spec fn earlier_passes(lines: Seq<LineView>) -> Result<Progress, ExtractError> {
    match run_pass(Pass::Strict, lines, 0, 0, Progress::start()) {
        Err(e) => Err(e),
        Ok(strict) => if strict.rows.len() >= 3 {
            Ok(strict)
        } else {
            run_pass(Pass::DegradedDash, lines, 0, 0, strict)
        },
    }
}

/// The grid of a frame: the rows found by the strict pass, then those of the
/// degraded-dash pass, then those of the dropped-dash pass, which looks only
/// at lines after the last one consumed before it. Fewer than three rows
/// are an error, and so is a consumed line with a token that denotes no
/// number.
pub open spec fn extract_rows_spec(lines: Seq<LineView>) -> Result<Seq<Seq<u32>>, ExtractError> {
    match earlier_passes(lines) {
        Err(e) => Err(e),
        Ok(earlier) => if earlier.rows.len() >= 3 {
            Ok(earlier.rows)
        } else {
            match run_pass(Pass::DroppedDash, lines, earlier.frontier, 0, earlier) {
                Err(e) => Err(e),
                Ok(last) => if last.rows.len() >= 3 {
                    Ok(last.rows)
                } else {
                    Err(ExtractError::MissingStages(last.rows.len() as usize))
                },
            }
        },
    }
}

/// The usable scores of one line from position `from` on, after those
/// already `found`: what the score-like tokens denote, noise left out.
pub open spec fn usable_in_line(tokens: Seq<TokenView>, from: nat, found: Seq<u32>) -> Result<
    Seq<u32>,
    ExtractError,
>
    decreases tokens.len() - from,
{
    if from >= tokens.len() {
        Ok(found)
    } else if tokens[from as int].score_like {
        match parse_score_spec(tokens[from as int].text) {
            Err(e) => Err(e),
            Ok(v) => usable_in_line(
                tokens,
                from + 1,
                if v >= NOISE_FLOOR {
                    found.push(v)
                } else {
                    found
                },
            ),
        }
    } else {
        usable_in_line(tokens, from + 1, found)
    }
}

/// The usable scores of the lines from index `from` on, in reading order.
pub open spec fn usable_scores(lines: Seq<LineView>, from: nat, found: Seq<u32>) -> Result<
    Seq<u32>,
    ExtractError,
>
    decreases lines.len() - from,
{
    if from >= lines.len() {
        Ok(found)
    } else {
        match usable_in_line(lines[from as int].tokens, 0, found) {
            Err(e) => Err(e),
            Ok(more) => usable_scores(lines, from + 1, more),
        }
    }
}

/// The row of a region cropped to one row: its first three usable scores,
/// missing ones recorded as zero. No usable score at all is an error.
pub open spec fn single_stage_spec(lines: Seq<LineView>) -> Result<Seq<u32>, ExtractError> {
    match usable_scores(lines, 0, Seq::empty()) {
        Err(e) => Err(e),
        Ok(found) => if found.len() == 0 {
            Err(ExtractError::NoScores)
        } else {
            Ok(pad_row(found))
        },
    }
}

/// A recognized word as the score pattern sees it.
pub open spec fn classified_word(w: OcrWord) -> TokenView {
    TokenView { text: w.text@, score_like: score_like(w.text@) }
}

/// A recognized line as the score pattern sees it.
pub open spec fn classified_line(l: OcrLine) -> LineView {
    LineView {
        tokens: l.words@.map_values(|w: OcrWord| classified_word(w)),
        confidence: l.confidence as nat,
    }
}

/// Recognized lines as the score pattern sees them.
pub open spec fn classified(lines: Seq<OcrLine>) -> Seq<LineView> {
    lines.map_values(|l: OcrLine| classified_line(l))
}

/// The mathematical value of a row, or of the error in its place.
pub open spec fn row_view(r: Result<[u32; 3], ExtractError>) -> Result<Seq<u32>, ExtractError> {
    match r {
        Ok(row) => Ok(row@),
        Err(e) => Err(e),
    }
}

/// The mathematical value of a grid, or of the error in its place.
pub open spec fn grid_view(r: Result<[[u32; 3]; 3], ExtractError>) -> Result<
    Seq<Seq<u32>>,
    ExtractError,
> {
    match r {
        Ok(grid) => Ok(Seq::new(3, |i: int| grid@[i]@)),
        Err(e) => Err(e),
    }
}

/// The first three of `values`, then zeros.
fn padded(values: &Vec<u32>) -> (row: [u32; 3])
    ensures
        row@ == pad_row(values@),
{
    let a: u32 = if values.len() > 0 {
        values[0]
    } else {
        0
    };
    let b: u32 = if values.len() > 1 {
        values[1]
    } else {
        0
    };
    let c: u32 = if values.len() > 2 {
        values[2]
    } else {
        0
    };
    let row: [u32; 3] = [a, b, c];
    assert(row@ =~= pad_row(values@));
    row
}

/// Whether a pass counts a token.
fn pass_takes(pass: Pass, token: &Token) -> (b: bool)
    ensures
        b == takes(pass, token@),
{
    if token.score_like {
        true
    } else {
        match pass {
            Pass::DegradedDash => is_dash_like(token.text.as_str()),
            _ => false,
        }
    }
}

/// What a line offers a pass.
#[verifier::loop_isolation(false)]
fn candidate_row(pass: Pass, line: &TokenLine) -> (r: Option<Result<[u32; 3], ExtractError>>)
    ensures
        match r {
            None => candidate(pass, line@) is None,
            Some(row) => candidate(pass, line@) == Some(row_view(row)),
        },
{
    if line.confidence < MIN_CONFIDENCE {
        return None;
    }
    let ghost tokens = line@.tokens;
    let ghost counted = |t: TokenView| takes(pass, t);
    let mut count: usize = 0;
    let mut i: usize = 0;
    assert(tokens.take(0) =~= Seq::<TokenView>::empty());
    while i < line.tokens.len()
        invariant
            i <= line.tokens.len(),
            tokens == line@.tokens,
            tokens.len() == line.tokens.len(),
            counted == (|t: TokenView| takes(pass, t)),
            count == tokens.take(i as int).filter(counted).len(),
            count <= i,
        decreases line.tokens.len() - i,
    {
        proof {
            assert(tokens.take(i + 1) =~= tokens.take(i as int).push(tokens[i as int]));
            Seq::lemma_filter_push(tokens.take(i as int), tokens[i as int], counted);
        }
        if pass_takes(pass, &line.tokens[i]) {
            count += 1;
        }
        i += 1;
    }
    assert(tokens.take(line.tokens.len() as int) =~= tokens);
    assert(count == slot_count(pass, tokens));
    let wanted = match pass {
        Pass::Strict | Pass::DegradedDash => count == 3,
        Pass::DroppedDash => 1 <= count && count <= 2,
    };
    if !wanted {
        return None;
    }
    let mut found: Vec<u32> = Vec::new();
    let mut j: usize = 0;
    while j < line.tokens.len()
        invariant
            j <= line.tokens.len(),
            tokens == line@.tokens,
            tokens.len() == line.tokens.len(),
            row_values(pass, tokens, j as nat, found@) == row_values(pass, tokens, 0, Seq::empty()),
        decreases line.tokens.len() - j,
    {
        let token = &line.tokens[j];
        assert(token@ == tokens[j as int]);
        if pass_takes(pass, token) {
            let value = if token.score_like {
                parse_score(token.text.as_str())
            } else {
                Ok(0)
            };
            match value {
                Err(e) => {
                    return Some(Err(e));
                },
                Ok(v) => {
                    found.push(v);
                },
            }
        }
        j += 1;
    }
    Some(Ok(padded(&found)))
}

/// What the passes have gathered so far.
struct Run {
    rows: Vec<[u32; 3]>,
    used: Vec<bool>,
    frontier: usize,
}

impl Run {
    spec fn progress(&self) -> Progress {
        Progress {
            rows: Seq::new(self.rows@.len(), |i: int| self.rows@[i]@),
            used: Set::new(|i: int| 0 <= i < self.used@.len() && self.used@[i]),
            frontier: self.frontier as nat,
        }
    }

    spec fn fits(&self, lines: nat) -> bool {
        self.used@.len() == lines && self.frontier <= lines
    }
}

/// One pass over all lines.
#[verifier::loop_isolation(false)]
fn pass_over(pass: Pass, lines: &[TokenLine], start: usize, run: &mut Run) -> (r: Result<
    (),
    ExtractError,
>)
    requires
        old(run).fits(lines@.len()),
    ensures
        final(run).fits(lines@.len()),
        match r {
            Ok(()) => run_pass(pass, lines_view(lines@), start as nat, 0, old(run).progress())
                == Ok::<Progress, ExtractError>(final(run).progress()),
            Err(e) => run_pass(pass, lines_view(lines@), start as nat, 0, old(run).progress())
                == Err::<Progress, ExtractError>(e),
        },
{
    let ghost all = lines_view(lines@);
    let ghost goal = run_pass(pass, all, start as nat, 0, old(run).progress());
    let mut i: usize = 0;
    while i < lines.len()
        invariant
            i <= lines.len(),
            all == lines_view(lines@),
            run.fits(lines@.len()),
            run_pass(pass, all, start as nat, i as nat, run.progress()) == goal,
        decreases lines.len() - i,
    {
        if run.rows.len() >= 3 {
            return Ok(());
        }
        if !run.used[i] && i >= start {
            assert(all[i as int] == lines@[i as int]@);
            match candidate_row(pass, &lines[i]) {
                None => {},
                Some(Err(e)) => {
                    return Err(e);
                },
                Some(Ok(row)) => {
                    let ghost before = run.progress();
                    run.rows.push(row);
                    run.used.set(i, true);
                    if i + 1 > run.frontier {
                        run.frontier = i + 1;
                    }
                    proof {
                        let after = run.progress();
                        let want = before.with_row(row@, i as nat);
                        assert(after.rows =~= want.rows);
                        assert(after.used =~= want.used);
                    }
                },
            }
        }
        i += 1;
    }
    Ok(())
}

/// The first three rows of a run as a grid.
fn grid_of(run: &Run) -> (grid: [[u32; 3]; 3])
    requires
        run.rows@.len() >= 3,
    ensures
        Seq::new(3, |i: int| grid@[i]@) == run.progress().rows.take(3),
{
    let grid: [[u32; 3]; 3] = [run.rows[0], run.rows[1], run.rows[2]];
    assert(Seq::new(3, |i: int| grid@[i]@) =~= run.progress().rows.take(3));
    grid
}

/// No pass gathers more than three rows.
pub proof fn lemma_run_pass_bound(pass: Pass, lines: Seq<LineView>, start: nat, from: nat, p: Progress)
    requires
        p.rows.len() <= 3,
    ensures
        run_pass(pass, lines, start, from, p) matches Ok(q) ==> q.rows.len() <= 3 && q.rows.len()
            >= p.rows.len(),
    decreases lines.len() - from,
{
    if from >= lines.len() || p.rows.len() >= 3 {
    } else if p.used.contains(from as int) || from < start {
        lemma_run_pass_bound(pass, lines, start, from + 1, p);
    } else {
        match candidate(pass, lines[from as int]) {
            None => lemma_run_pass_bound(pass, lines, start, from + 1, p),
            Some(Err(e)) => {},
            Some(Ok(row)) => lemma_run_pass_bound(
                pass,
                lines,
                start,
                from + 1,
                p.with_row(row, from),
            ),
        }
    }
}

/// Recovers the grid of a frame from lines whose tokens carry the verdict of
/// the score pattern.
pub fn scores_from_tokens(lines: &[TokenLine]) -> (r: Result<[[u32; 3]; 3], ExtractError>)
    ensures
        grid_view(r) == extract_rows_spec(lines_view(lines@)),
{
    let ghost all = lines_view(lines@);
    let mut used: Vec<bool> = Vec::new();
    let mut k: usize = 0;
    while k < lines.len()
        invariant
            k <= lines.len(),
            used@.len() == k,
            forall|i: int| 0 <= i < k ==> !used@[i],
        decreases lines.len() - k,
    {
        used.push(false);
        k += 1;
    }
    let mut run = Run { rows: Vec::new(), used, frontier: 0 };
    proof {
        assert(run.progress().rows =~= Progress::start().rows);
        assert(run.progress().used =~= Progress::start().used);
        lemma_run_pass_bound(Pass::Strict, all, 0, 0, Progress::start());
    }
    match pass_over(Pass::Strict, lines, 0, &mut run) {
        Err(e) => {
            return Err(e);
        },
        Ok(()) => {},
    }
    if run.rows.len() >= 3 {
        proof {
            assert(run.progress().rows.take(3) =~= run.progress().rows);
        }
        return Ok(grid_of(&run));
    }
    proof {
        lemma_run_pass_bound(Pass::DegradedDash, all, 0, 0, run.progress());
    }
    match pass_over(Pass::DegradedDash, lines, 0, &mut run) {
        Err(e) => {
            return Err(e);
        },
        Ok(()) => {},
    }
    if run.rows.len() >= 3 {
        proof {
            assert(run.progress().rows.take(3) =~= run.progress().rows);
        }
        return Ok(grid_of(&run));
    }
    let start = run.frontier;
    proof {
        lemma_run_pass_bound(Pass::DroppedDash, all, start as nat, 0, run.progress());
    }
    match pass_over(Pass::DroppedDash, lines, start, &mut run) {
        Err(e) => {
            return Err(e);
        },
        Ok(()) => {},
    }
    if run.rows.len() >= 3 {
        proof {
            assert(run.progress().rows.take(3) =~= run.progress().rows);
        }
        Ok(grid_of(&run))
    } else {
        Err(ExtractError::MissingStages(run.rows.len()))
    }
}

/// Recovers the row of a region cropped to one row from lines whose tokens
/// carry the verdict of the score pattern. The confidence of a line plays
/// no part here.
#[verifier::loop_isolation(false)]
pub fn single_stage_from_tokens(lines: &[TokenLine]) -> (r: Result<[u32; 3], ExtractError>)
    ensures
        row_view(r) == single_stage_spec(lines_view(lines@)),
{
    let ghost all = lines_view(lines@);
    let mut found: Vec<u32> = Vec::new();
    let mut i: usize = 0;
    while i < lines.len()
        invariant
            i <= lines.len(),
            all == lines_view(lines@),
            usable_scores(all, i as nat, found@) == usable_scores(all, 0, Seq::empty()),
        decreases lines.len() - i,
    {
        let line = &lines[i];
        let ghost tokens = all[i as int].tokens;
        let ghost entry = found@;
        assert(all[i as int] == line@);
        let mut j: usize = 0;
        while j < line.tokens.len()
            invariant
                j <= line.tokens.len(),
                tokens == line@.tokens,
                tokens.len() == line.tokens.len(),
                usable_in_line(tokens, j as nat, found@) == usable_in_line(tokens, 0, entry),
            decreases line.tokens.len() - j,
        {
            let token = &line.tokens[j];
            assert(token@ == tokens[j as int]);
            if token.score_like {
                match parse_score(token.text.as_str()) {
                    Err(e) => {
                        return Err(e);
                    },
                    Ok(v) => {
                        if v >= NOISE_FLOOR {
                            found.push(v);
                        }
                    },
                }
            }
            j += 1;
        }
        i += 1;
    }
    if found.len() == 0 {
        Err(ExtractError::NoScores)
    } else {
        Ok(padded(&found))
    }
}

/// Puts every word of the lines before the score pattern.
pub fn classify(pattern: &ScorePattern, lines: &[OcrLine]) -> (out: Vec<TokenLine>)
    ensures
        lines_view(out@) == classified(lines@),
{
    let mut out: Vec<TokenLine> = Vec::new();
    let mut i: usize = 0;
    while i < lines.len()
        invariant
            i <= lines.len(),
            out@.len() == i,
            forall|k: int| 0 <= k < i ==> (#[trigger] out@[k])@ == classified_line(lines@[k]),
        decreases lines.len() - i,
    {
        let line = &lines[i];
        let mut tokens: Vec<Token> = Vec::new();
        let mut j: usize = 0;
        while j < line.words.len()
            invariant
                j <= line.words.len(),
                tokens@.len() == j,
                forall|k: int|
                    0 <= k < j ==> (#[trigger] tokens@[k])@ == classified_word(line.words@[k]),
            decreases line.words.len() - j,
        {
            let word = &line.words[j];
            let verdict = pattern.is_score_like(word.text.as_str());
            tokens.push(Token { text: word.text.clone(), score_like: verdict });
            j += 1;
        }
        let token_line = TokenLine { tokens, confidence: line.confidence };
        assert(token_line@.tokens =~= classified_line(*line).tokens);
        out.push(token_line);
        i += 1;
    }
    assert(lines_view(out@) =~= classified(lines@));
    out
}

/// Recovers the three-by-three grid of scores of a captured frame.
///
/// The pattern is compiled first; if the matcher rejects it, that is the
/// error. Else the result is that of [`scores_from_tokens`] on the lines as
/// the pattern sees them.
pub fn extract_scores(lines: &[OcrLine]) -> (r: Result<[[u32; 3]; 3], ExtractError>)
    ensures
        !regex_compiles(SCORE_PATTERN@) ==> grid_view(r) == Err::<Seq<Seq<u32>>, ExtractError>(
            ExtractError::Pattern,
        ),
        regex_compiles(SCORE_PATTERN@) ==> grid_view(r) == extract_rows_spec(classified(lines@)),
{
    match ScorePattern::new() {
        Err(e) => Err(e),
        Ok(pattern) => {
            let tokens = classify(&pattern, lines);
            scores_from_tokens(tokens.as_slice())
        },
    }
}

/// Recovers the row of scores of a region that was cropped to one row.
///
/// The pattern is compiled first; if the matcher rejects it, that is the
/// error. Else the result is that of [`single_stage_from_tokens`] on the
/// lines as the pattern sees them.
pub fn extract_single_stage(lines: &[OcrLine]) -> (r: Result<[u32; 3], ExtractError>)
    ensures
        !regex_compiles(SCORE_PATTERN@) ==> row_view(r) == Err::<Seq<u32>, ExtractError>(
            ExtractError::Pattern,
        ),
        regex_compiles(SCORE_PATTERN@) ==> row_view(r) == single_stage_spec(classified(lines@)),
{
    match ScorePattern::new() {
        Err(e) => Err(e),
        Ok(pattern) => {
            let tokens = classify(&pattern, lines);
            single_stage_from_tokens(tokens.as_slice())
        },
    }
}

} // verus!
