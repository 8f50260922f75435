//! What holds of row extraction whatever the lines are.

use vstd::prelude::*;
use crate::extract::{
    accepts, candidate, earlier_passes, extract_rows_spec, lemma_run_pass_bound, pad_row,
    row_values, run_pass, slot_count, takes, token_value, LineView, Pass, Progress, TokenView,
    MIN_CONFIDENCE,
};
use crate::score::{parse_score_spec, ExtractError};

verus! {

/// The tokens of a line that a pass counts, in reading order.
pub open spec fn counted(pass: Pass, tokens: Seq<TokenView>) -> Seq<TokenView> {
    tokens.filter(|t: TokenView| takes(pass, t))
}

/// The score-like tokens of a line, in reading order.
pub open spec fn score_tokens(line: LineView) -> Seq<TokenView> {
    counted(Pass::Strict, line.tokens)
}

/// The number that a token denotes, where it denotes one.
pub open spec fn value_of(t: TokenView) -> u32 {
    token_value(t)->Ok_0
}

/// Where every counted token denotes a number, the values of a line are
/// those numbers in reading order.
pub proof fn lemma_row_values_of_counted(
    pass: Pass,
    tokens: Seq<TokenView>,
    from: nat,
    found: Seq<u32>,
)
    requires
        from <= tokens.len(),
        forall|j: int|
            0 <= j < counted(pass, tokens.skip(from as int)).len() ==> token_value(
                #[trigger] counted(pass, tokens.skip(from as int))[j],
            ) is Ok,
    ensures
        row_values(pass, tokens, from, found) == Ok::<Seq<u32>, ExtractError>(
            found + counted(pass, tokens.skip(from as int)).map_values(|t: TokenView| value_of(t)),
        ),
    decreases tokens.len() - from,
{
    let pred = |t: TokenView| takes(pass, t);
    let here = counted(pass, tokens.skip(from as int));
    if from >= tokens.len() {
        assert(tokens.skip(from as int) =~= Seq::<TokenView>::empty());
        Seq::lemma_filter_len(tokens.skip(from as int), pred);
        assert(here =~= Seq::<TokenView>::empty());
        assert(found + here.map_values(|t: TokenView| value_of(t)) =~= found);
    } else {
        let x = tokens[from as int];
        let rest = tokens.skip(from + 1 as int);
        assert(tokens.skip(from as int) =~= seq![x] + rest);
        Seq::lemma_filter_prepend(rest, x, pred);
        let later = counted(pass, rest);
        if takes(pass, x) {
            assert(here =~= seq![x] + later);
            assert(here[0] == x);
            assert forall|j: int| 0 <= j < later.len() implies token_value(
                #[trigger] later[j],
            ) is Ok by {
                assert(later[j] == here[j + 1]);
            }
            let v = value_of(x);
            lemma_row_values_of_counted(pass, tokens, from + 1, found.push(v));
            assert(found.push(v) + later.map_values(|t: TokenView| value_of(t)) =~= found
                + here.map_values(|t: TokenView| value_of(t)));
        } else {
            assert(here =~= later);
            lemma_row_values_of_counted(pass, tokens, from + 1, found);
        }
    }
}

/// A line that the strict pass reads without loss: confident enough, with
/// exactly three score-like tokens, each of which denotes a number.
pub open spec fn clean_line(line: LineView) -> bool {
    &&& line.confidence >= MIN_CONFIDENCE
    &&& score_tokens(line).len() == 3
    &&& forall|j: int| 0 <= j < 3 ==> parse_score_spec(#[trigger] score_tokens(line)[j].text) is Ok
}

/// The numbers of the three score-like tokens of a clean line, left to
/// right.
pub open spec fn clean_row(line: LineView) -> Seq<u32> {
    Seq::new(3, |j: int| parse_score_spec(score_tokens(line)[j].text)->Ok_0)
}

/// What a clean line offers the strict pass is its row.
pub proof fn lemma_clean_line_candidate(line: LineView)
    requires
        clean_line(line),
    ensures
        candidate(Pass::Strict, line) == Some(Ok::<Seq<u32>, ExtractError>(clean_row(line))),
{
    let tokens = line.tokens;
    let scores = score_tokens(line);
    assert(tokens.skip(0) =~= tokens);
    assert forall|j: int| 0 <= j < scores.len() implies token_value(#[trigger] scores[j]) is Ok by {
        Seq::lemma_filter_pred(tokens, |t: TokenView| takes(Pass::Strict, t), j);
        assert(scores[j].score_like);
    }
    lemma_row_values_of_counted(Pass::Strict, tokens, 0, Seq::empty());
    let values = scores.map_values(|t: TokenView| value_of(t));
    assert(Seq::<u32>::empty() + values =~= values);
    assert(pad_row(values) =~= clean_row(line)) by {
        assert forall|j: int| 0 <= j < 3 implies pad_row(values)[j] == clean_row(line)[j] by {
            Seq::lemma_filter_pred(tokens, |t: TokenView| takes(Pass::Strict, t), j);
            assert(scores[j].score_like);
        }
    }
}

/// Three clean lines give the grid of their rows, in order: the strict pass
/// alone reads them.
pub proof fn lemma_three_clean_lines(lines: Seq<LineView>)
    requires
        lines.len() == 3,
        forall|i: int| 0 <= i < 3 ==> clean_line(#[trigger] lines[i]),
    ensures
        extract_rows_spec(lines) == Ok::<Seq<Seq<u32>>, ExtractError>(
            Seq::new(3, |i: int| clean_row(lines[i])),
        ),
{
    lemma_clean_line_candidate(lines[0]);
    lemma_clean_line_candidate(lines[1]);
    lemma_clean_line_candidate(lines[2]);
    let none = Progress::start();
    let first = none.with_row(clean_row(lines[0]), 0);
    let second = first.with_row(clean_row(lines[1]), 1);
    let third = second.with_row(clean_row(lines[2]), 2);
    assert(run_pass(Pass::Strict, lines, 0, 3, third) == Ok::<Progress, ExtractError>(third));
    assert(run_pass(Pass::Strict, lines, 0, 2, second) == Ok::<Progress, ExtractError>(third));
    assert(run_pass(Pass::Strict, lines, 0, 1, first) == Ok::<Progress, ExtractError>(third));
    assert(run_pass(Pass::Strict, lines, 0, 0, none) == Ok::<Progress, ExtractError>(third));
    assert(third.rows =~= Seq::new(3, |i: int| clean_row(lines[i])));
}

/// Every consumed line lies before the frontier.
pub open spec fn used_below_frontier(p: Progress) -> bool {
    forall|i: int| p.used.contains(i) ==> 0 <= i < p.frontier
}

/// A pass keeps every consumed line before the frontier.
pub proof fn lemma_run_pass_frontier(
    pass: Pass,
    lines: Seq<LineView>,
    start: nat,
    from: nat,
    p: Progress,
)
    requires
        used_below_frontier(p),
    ensures
        run_pass(pass, lines, start, from, p) matches Ok(q) ==> used_below_frontier(q),
    decreases lines.len() - from,
{
    if from >= lines.len() || p.rows.len() >= 3 {
    } else if p.used.contains(from as int) || from < start {
        lemma_run_pass_frontier(pass, lines, start, from + 1, p);
    } else {
        match candidate(pass, lines[from as int]) {
            None => lemma_run_pass_frontier(pass, lines, start, from + 1, p),
            Some(Err(e)) => {},
            Some(Ok(row)) => {
                let q = p.with_row(row, from);
                assert(used_below_frontier(q));
                lemma_run_pass_frontier(pass, lines, start, from + 1, q);
            },
        }
    }
}

/// The dropped-dash pass goes by every line that is consumed, lies before
/// its start, or offers it nothing.
proof fn lemma_dropped_dash_skips(lines: Seq<LineView>, p: Progress, from: nat, k: nat)
    requires
        from <= k <= lines.len(),
        p.rows.len() < 3,
        forall|m: int|
            from <= m < k && m >= p.frontier && !p.used.contains(m) ==> candidate(
                Pass::DroppedDash,
                #[trigger] lines[m],
            ) is None,
    ensures
        run_pass(Pass::DroppedDash, lines, p.frontier, from, p) == run_pass(
            Pass::DroppedDash,
            lines,
            p.frontier,
            k,
            p,
        ),
    decreases k - from,
{
    if from < k {
        lemma_dropped_dash_skips(lines, p, from + 1, k);
    }
}

/// Where the earlier passes found two rows, the first line after them that
/// the dropped-dash pass accepts completes the grid. If that line has a
/// single score-like token, its row is that token's number followed by two
/// zeros.
pub proof fn lemma_dropped_dash_completes_grid(lines: Seq<LineView>, two: Progress, k: nat, v: u32)
    requires
        earlier_passes(lines) == Ok::<Progress, ExtractError>(two),
        two.rows.len() == 2,
        two.frontier <= k < lines.len(),
        forall|m: int|
            two.frontier <= m < k ==> candidate(Pass::DroppedDash, #[trigger] lines[m]) is None,
        lines[k as int].confidence >= MIN_CONFIDENCE,
        score_tokens(lines[k as int]).len() == 1,
        parse_score_spec(score_tokens(lines[k as int])[0].text) == Ok::<u32, ExtractError>(v),
    ensures
        extract_rows_spec(lines) == Ok::<Seq<Seq<u32>>, ExtractError>(
            two.rows.push(seq![v, 0u32, 0u32]),
        ),
{
    let line = lines[k as int];
    let tokens = line.tokens;
    let start = Progress::start();
    assert(used_below_frontier(start));
    lemma_run_pass_frontier(Pass::Strict, lines, 0, 0, start);
    match run_pass(Pass::Strict, lines, 0, 0, start) {
        Ok(first) => {
            if first.rows.len() < 3 {
                lemma_run_pass_frontier(Pass::DegradedDash, lines, 0, 0, first);
            }
        },
        Err(e) => {},
    }
    assert(used_below_frontier(two));
    // the row that the line offers
    let scores = score_tokens(line);
    assert(counted(Pass::DroppedDash, tokens) =~= scores) by {
        assert((|t: TokenView| takes(Pass::DroppedDash, t)) =~= (|t: TokenView|
            takes(Pass::Strict, t)));
    }
    assert(tokens.skip(0) =~= tokens);
    assert forall|j: int| 0 <= j < scores.len() implies token_value(#[trigger] scores[j]) is Ok by {
        Seq::lemma_filter_pred(tokens, |t: TokenView| takes(Pass::Strict, t), j);
        assert(scores[j].score_like);
    }
    lemma_row_values_of_counted(Pass::DroppedDash, tokens, 0, Seq::empty());
    let values = scores.map_values(|t: TokenView| value_of(t));
    assert(Seq::<u32>::empty() + values =~= values);
    Seq::lemma_filter_pred(tokens, |t: TokenView| takes(Pass::Strict, t), 0);
    assert(scores[0].score_like);
    assert(values[0] == v);
    assert(pad_row(values) =~= seq![v, 0u32, 0u32]);
    assert(slot_count(Pass::DroppedDash, tokens) == 1);
    assert(accepts(Pass::DroppedDash, 1));
    assert(candidate(Pass::DroppedDash, line) == Some(
        Ok::<Seq<u32>, ExtractError>(seq![v, 0u32, 0u32]),
    ));
    // the pass reaches the line and stops after it
    lemma_dropped_dash_skips(lines, two, 0, k);
    let three = two.with_row(seq![v, 0u32, 0u32], k);
    assert(!two.used.contains(k as int));
    assert(run_pass(Pass::DroppedDash, lines, two.frontier, k + 1, three) == Ok::<
        Progress,
        ExtractError,
    >(three));
    assert(run_pass(Pass::DroppedDash, lines, two.frontier, k, two) == Ok::<
        Progress,
        ExtractError,
    >(three));
}

} // verus!
