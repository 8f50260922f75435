//! The result store: the rows that are appended for every capture event.
//! Two files grow side by side: one with a header and a full row per
//! event, one with nothing but the nine scores per row. Each row is
//! written whole, so that the files can be read while a run goes on.
//! Opening and writing the files is the owner's work.

use vstd::prelude::*;
use crate::csv::comma_joined;
use crate::queue::OcrWorkItem;
use crate::text::{decimal_text, push_decimal};

verus! {

/// The header row of the full results.
pub const CSV_HEADER: &'static str =
    "iteration,timestamp,screenshot,s1c1,s1c2,s1c3,s2c1,s2c2,s2c3,s3c1,s3c2,s3c3";

/// The name of the file that holds the scores alone. It lies beside the
/// full results.
pub const RAW_CSV_FILE_NAME: &'static str = "rehearsal_data.csv";

/// The nine cells of a grid as fields, stage by stage.
pub open spec fn score_fields(scores: [[u32; 3]; 3]) -> Seq<Seq<char>> {
    Seq::new(9, |k: int| decimal_text(scores@[k / 3]@[k % 3] as nat))
}

/// The first three fields of a full row: the iteration, the time of the
/// capture and the place of the image.
pub open spec fn event_fields(item: OcrWorkItem) -> Seq<Seq<char>> {
    seq![decimal_text(item.iteration as nat), item.captured_at@, item.screenshot_path@]
}

/// The row of the scores alone.
pub open spec fn raw_row_spec(scores: [[u32; 3]; 3]) -> Seq<char> {
    comma_joined(score_fields(scores))
}

/// The full row of a capture event.
pub open spec fn csv_row_spec(item: OcrWorkItem, scores: [[u32; 3]; 3]) -> Seq<char> {
    comma_joined(event_fields(item) + score_fields(scores))
}

/// Appends the cells of a grid from number `from` on, each after a comma.
fn push_scores(row: &mut String, scores: &[[u32; 3]; 3], from: usize, lead: Ghost<Seq<Seq<char>>>)
    requires
        from <= 9,
        lead@.len() + from >= 1,
        old(row)@ == comma_joined(lead@ + score_fields(*scores).take(from as int)),
    ensures
        final(row)@ == comma_joined(lead@ + score_fields(*scores)),
{
    let ghost all = score_fields(*scores);
    let mut k: usize = from;
    while k < 9
        invariant
            from <= k <= 9,
            lead@.len() + from >= 1,
            all == score_fields(*scores),
            row@ == comma_joined(lead@ + all.take(k as int)),
        decreases 9 - k,
    {
        let ghost so_far = lead@ + all.take(k as int);
        row.append(",");
        let value = scores[k / 3][k % 3];
        push_decimal(row, value as u64);
        proof {
            reveal_strlit(",");
            let next = lead@ + all.take(k + 1);
            assert(next.drop_last() =~= so_far);
            assert(next.last() == all[k as int]);
            assert(","@ =~= seq![',']);
        }
        k += 1;
    }
    assert(all.take(9) =~= all);
}

/// The row of the scores alone: the nine cells, stage by stage, with
/// commas between them.
pub fn format_raw_row(scores: &[[u32; 3]; 3]) -> (row: String)
    ensures
        row@ == raw_row_spec(*scores),
{
    let mut row = String::new();
    push_decimal(&mut row, scores[0][0] as u64);
    let ghost lead = Seq::<Seq<char>>::empty();
    proof {
        let all = score_fields(*scores);
        assert(lead + all.take(1) =~= seq![all[0]]);
        assert(row@ =~= all[0]);
        assert(lead + all =~= all);
    }
    push_scores(&mut row, scores, 1, Ghost(lead));
    row
}

/// The full row of a capture event: the iteration, the time of the
/// capture, the place of the image and the nine cells, stage by stage.
pub fn format_csv_row(item: &OcrWorkItem, scores: &[[u32; 3]; 3]) -> (row: String)
    ensures
        row@ == csv_row_spec(*item, *scores),
{
    let mut row = String::new();
    push_decimal(&mut row, item.iteration as u64);
    row.append(",");
    row.append(item.captured_at.as_str());
    row.append(",");
    row.append(item.screenshot_path.as_str());
    let ghost lead = event_fields(*item);
    proof {
        reveal_strlit(",");
        assert(","@ =~= seq![',']);
        let all = score_fields(*scores);
        assert(lead + all.take(0) =~= lead);
        assert(lead.drop_last() =~= seq![lead[0], lead[1]]);
        assert(lead.drop_last().drop_last() =~= seq![lead[0]]);
        assert(comma_joined(seq![lead[0]]) == lead[0]);
        assert(comma_joined(seq![lead[0], lead[1]]) == lead[0] + seq![','] + lead[1]);
        assert(row@ =~= comma_joined(lead));
    }
    push_scores(&mut row, scores, 0, Ghost(lead));
    row
}

/// Whether the header has to be written before the first row: where the
/// file of results is missing or holds nothing. A file with content is
/// left as it is.
pub fn header_is_due(existing_size: Option<u64>) -> (due: bool)
    ensures
        due == match existing_size {
            None => true,
            Some(size) => size == 0,
        },
{
    match existing_size {
        None => true,
        Some(size) => size == 0,
    }
}

} // verus!
