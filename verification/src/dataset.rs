//! Reading the full results back: the rows of a results file as runs.

use vstd::prelude::*;
use crate::csv::{
    comma_free, fields, is_blank, is_blank_spec, lemma_pieces_of_joined, lines_of, split_lines,
    split_on,
};
use crate::queue::OcrWorkItem;
use crate::store::{csv_row_spec, event_fields, score_fields};
use crate::text::{
    chars_of, decimal_text, is_digit, lemma_decimal_round_trip, lemma_parse_u32_of_decimal_text,
    parse_u32, parse_u32_spec, string_of,
};

verus! {

/// The number of columns of a full row.
pub const COLUMNS: usize = 12;

/// One run: a row of the full results.
#[derive(Debug, Clone, PartialEq)]
pub struct RunData {
    /// The iteration, counted from 1.
    pub iteration: u32,
    /// When the result was captured.
    pub timestamp: String,
    /// Where the captured image is stored.
    pub screenshot_path: String,
    /// The scores by stage and criterion.
    pub scores: [[u32; 3]; 3],
}

/// The mathematical value of a [`RunData`]; the scores stand stage by
/// stage in one sequence of nine.
pub ghost struct RunView {
    pub iteration: u32,
    pub timestamp: Seq<char>,
    pub screenshot_path: Seq<char>,
    pub scores: Seq<u32>,
}

/// The nine cells of a grid, stage by stage.
pub open spec fn flat_scores(scores: [[u32; 3]; 3]) -> Seq<u32> {
    Seq::new(9, |k: int| scores@[k / 3]@[k % 3])
}

impl View for RunData {
    type V = RunView;

    open spec fn view(&self) -> RunView {
        RunView {
            iteration: self.iteration,
            timestamp: self.timestamp@,
            screenshot_path: self.screenshot_path@,
            scores: flat_scores(self.scores),
        }
    }
}

/// Why a row is no run.
#[derive(Debug, Clone, Copy, PartialEq, Eq, Structural)]
pub enum RowError {
    /// The row has fewer than twelve columns; the field is their number.
    TooFewColumns(usize),
    /// The first column is no number.
    InvalidIteration,
    /// A score is no number; the field is its column, counted from 1.
    InvalidScore(usize),
}

/// The first column from `from` on, among the twelve, that is no number.
pub open spec fn first_invalid_score(parts: Seq<Seq<char>>, from: nat) -> Option<nat>
    decreases 12 - from,
{
    if from >= 12 {
        None
    } else if parse_u32_spec(parts[from as int]) is None {
        Some(from)
    } else {
        first_invalid_score(parts, from + 1)
    }
}

/// The run that a row denotes: the iteration, the time stamp, the place of
/// the image and nine scores. Columns beyond the twelfth are not looked
/// at.
pub open spec fn parse_line_spec(line: Seq<char>) -> Result<RunView, RowError> {
    let parts = fields(line);
    if parts.len() < 12 {
        Err(RowError::TooFewColumns(parts.len() as usize))
    } else if parse_u32_spec(parts[0]) is None {
        Err(RowError::InvalidIteration)
    } else {
        match first_invalid_score(parts, 3) {
            Some(column) => Err(RowError::InvalidScore((column + 1) as usize)),
            None => Ok(
                RunView {
                    iteration: parse_u32_spec(parts[0])->0,
                    timestamp: parts[1],
                    screenshot_path: parts[2],
                    scores: Seq::new(9, |k: int| parse_u32_spec(parts[3 + k])->0),
                },
            ),
        }
    }
}

/// The mathematical value of a run, or of the error in its place.
pub open spec fn run_result_view(r: Result<RunData, RowError>) -> Result<RunView, RowError> {
    match r {
        Ok(run) => Ok(run@),
        Err(e) => Err(e),
    }
}

/// The runs among the first `upto` lines. The first line is the header.
/// Blank lines and rows that are no run are passed over.
pub open spec fn rows_of(lines: Seq<Seq<char>>, upto: nat) -> Seq<RunView>
    decreases upto,
{
    if upto <= 1 {
        Seq::empty()
    } else {
        let before = rows_of(lines, (upto - 1) as nat);
        let line = lines[upto - 1];
        if is_blank_spec(line) {
            before
        } else {
            match parse_line_spec(line) {
                Ok(run) => before.push(run),
                Err(_) => before,
            }
        }
    }
}

/// The runs that the text of a results file holds.
pub open spec fn dataset_spec(content: Seq<char>) -> Seq<RunView> {
    rows_of(lines_of(content), lines_of(content).len())
}

/// The mathematical value of a list of runs.
pub open spec fn runs_view(runs: Seq<RunData>) -> Seq<RunView> {
    runs.map_values(|run: RunData| run@)
}

/// All the runs of a results file.
#[derive(Debug, Clone, PartialEq)]
pub struct DataSet {
    pub runs: Vec<RunData>,
}

/// Reads a row that is given by its characters.
#[verifier::loop_isolation(false)]
fn parse_row(row: &Vec<char>) -> (r: Result<RunData, RowError>)
    ensures
        run_result_view(r) == parse_line_spec(row@),
{
    let parts = split_on(row, ',');
    let ghost cut = fields(row@);
    assert(cut.len() == parts@.len());
    if parts.len() < COLUMNS {
        return Err(RowError::TooFewColumns(parts.len()));
    }
    assert(forall|i: int| 0 <= i < parts@.len() ==> (#[trigger] parts@[i])@ == cut[i]);
    let iteration = match parse_u32(&parts[0]) {
        None => {
            return Err(RowError::InvalidIteration);
        },
        Some(n) => n,
    };
    let mut cells: Vec<u32> = Vec::new();
    let mut k: usize = 0;
    while k < 9
        invariant
            k <= 9,
            cells@.len() == k,
            first_invalid_score(cut, (3 + k) as nat) == first_invalid_score(cut, 3),
            forall|j: int| 0 <= j < k ==> parse_u32_spec(cut[3 + j]) == Some(#[trigger] cells@[j]),
        decreases 9 - k,
    {
        match parse_u32(&parts[3 + k]) {
            None => {
                return Err(RowError::InvalidScore(3 + k + 1));
            },
            Some(value) => {
                cells.push(value);
            },
        }
        k += 1;
    }
    let scores: [[u32; 3]; 3] = [
        [cells[0], cells[1], cells[2]],
        [cells[3], cells[4], cells[5]],
        [cells[6], cells[7], cells[8]],
    ];
    let run = RunData {
        iteration,
        timestamp: string_of(&parts[1]),
        screenshot_path: string_of(&parts[2]),
        scores,
    };
    proof {
        let want = Seq::new(9, |k: int| parse_u32_spec(cut[3 + k])->0);
        assert forall|j: int| 0 <= j < 9 implies flat_scores(scores)[j] == want[j] by {
            assert(parse_u32_spec(cut[3 + j]) == Some(cells@[j]));
        }
        assert(flat_scores(scores) =~= want);
    }
    Ok(run)
}

impl DataSet {
    /// Reads one row of the full results.
    pub fn parse_line(line: &str) -> (r: Result<RunData, RowError>)
        ensures
            run_result_view(r) == parse_line_spec(line@),
    {
        let chars = chars_of(line);
        parse_row(&chars)
    }

    /// Reads the text of a results file: every row after the header that
    /// is a run, in order. Blank lines and malformed rows are passed over.
    #[verifier::loop_isolation(false)]
    pub fn from_csv(content: &str) -> (data: DataSet)
        ensures
            runs_view(data.runs@) == dataset_spec(content@),
    {
        let chars = chars_of(content);
        let lines = split_lines(&chars);
        let ghost all = lines_of(content@);
        let mut runs: Vec<RunData> = Vec::new();
        let mut i: usize = 0;
        while i < lines.len()
            invariant
                i <= lines.len(),
                runs_view(runs@) == rows_of(all, i as nat),
            decreases lines.len() - i,
        {
            let line = &lines[i];
            assert(line@ == all[i as int]);
            let ghost before = runs_view(runs@);
            if i > 0 && !is_blank(line) {
                match parse_row(line) {
                    Ok(run) => {
                        runs.push(run);
                        assert(runs_view(runs@) =~= before.push(run@));
                    },
                    Err(_) => {},
                }
            }
            i += 1;
        }
        DataSet { runs }
    }

    /// The values of one column, run by run. Stage and criterion are
    /// counted from 0.
    pub fn column_values(&self, stage: usize, criterion: usize) -> (values: Vec<u32>)
        requires
            stage < 3,
            criterion < 3,
        ensures
            values@.len() == self.runs@.len(),
            forall|i: int|
                0 <= i < values@.len() ==> #[trigger] values@[i]
                    == self.runs@[i].scores@[stage as int]@[criterion as int],
    {
        let mut values: Vec<u32> = Vec::new();
        let mut i: usize = 0;
        while i < self.runs.len()
            invariant
                i <= self.runs.len(),
                stage < 3,
                criterion < 3,
                values@.len() == i,
                forall|j: int|
                    0 <= j < i ==> #[trigger] values@[j]
                        == self.runs@[j].scores@[stage as int]@[criterion as int],
            decreases self.runs.len() - i,
        {
            values.push(self.runs[i].scores[stage][criterion]);
            i += 1;
        }
        values
    }

    /// The number of runs.
    pub fn len(&self) -> (n: usize)
        ensures
            n == self.runs@.len(),
    {
        self.runs.len()
    }

    /// Whether there is no run.
    pub fn is_empty(&self) -> (b: bool)
        ensures
            b == (self.runs@.len() == 0),
    {
        self.runs.len() == 0
    }
}

/// The decimal notation of a number holds no comma.
pub proof fn lemma_decimal_text_comma_free(n: nat)
    ensures
        comma_free(decimal_text(n)),
{
    lemma_decimal_round_trip(n);
    assert forall|i: int| 0 <= i < decimal_text(n).len() implies #[trigger] decimal_text(n)[i]
        != ',' by {
        assert(is_digit(decimal_text(n)[i]));
    }
}

/// What the result store writes for a capture event reads back as a run
/// with the same iteration, time stamp, place and scores, provided that
/// neither the time stamp nor the place holds a comma.
pub proof fn lemma_row_reads_back(item: OcrWorkItem, scores: [[u32; 3]; 3])
    requires
        comma_free(item.captured_at@),
        comma_free(item.screenshot_path@),
    ensures
        parse_line_spec(csv_row_spec(item, scores)) == Ok::<RunView, RowError>(
            RunView {
                iteration: item.iteration,
                timestamp: item.captured_at@,
                screenshot_path: item.screenshot_path@,
                scores: flat_scores(scores),
            },
        ),
{
    let parts = event_fields(item) + score_fields(scores);
    assert(parts.len() == 12);
    lemma_decimal_text_comma_free(item.iteration as nat);
    assert forall|i: int| 0 <= i < parts.len() implies comma_free(#[trigger] parts[i]) by {
        if i >= 3 {
            let k = i - 3;
            assert(parts[i] == score_fields(scores)[k]);
            lemma_decimal_text_comma_free(scores@[k / 3]@[k % 3] as nat);
        }
    }
    lemma_pieces_of_joined(parts, ',');
    assert(fields(csv_row_spec(item, scores)) == parts);
    lemma_parse_u32_of_decimal_text(item.iteration);
    assert forall|k: int| 0 <= k < 9 implies parse_u32_spec(#[trigger] parts[3 + k]) == Some(
        scores@[k / 3]@[k % 3],
    ) by {
        assert(parts[3 + k] == score_fields(scores)[k]);
        lemma_parse_u32_of_decimal_text(scores@[k / 3]@[k % 3]);
    }
    assert(first_invalid_score(parts, 3) is None) by {
        reveal_with_fuel(first_invalid_score, 10);
        assert(parts[3] == parts[3 + 0int]);
        assert(parts[4] == parts[3 + 1int]);
        assert(parts[5] == parts[3 + 2int]);
        assert(parts[6] == parts[3 + 3int]);
        assert(parts[7] == parts[3 + 4int]);
        assert(parts[8] == parts[3 + 5int]);
        assert(parts[9] == parts[3 + 6int]);
        assert(parts[10] == parts[3 + 7int]);
        assert(parts[11] == parts[3 + 8int]);
    }
    assert(Seq::new(9, |k: int| parse_u32_spec(parts[3 + k])->0) =~= flat_scores(scores));
}

} // verus!
