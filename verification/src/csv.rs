//! Delimited text: how a text is cut at a separator and how pieces are
//! joined with one, for rows of comma-separated fields and for the lines
//! of a file. There is no quoting: a piece holds no separator.

use vstd::prelude::*;

verus! {

/// The pieces of a text: the stretches between the occurrences of `sep`.
/// A text without the separator is one piece, the empty text one empty
/// piece.
pub open spec fn pieces(text: Seq<char>, sep: char) -> Seq<Seq<char>>
    decreases text.len(),
{
    if text.len() == 0 {
        seq![Seq::empty()]
    } else {
        let before = pieces(text.drop_last(), sep);
        if text.last() == sep {
            before.push(Seq::empty())
        } else {
            before.drop_last().push(before.last().push(text.last()))
        }
    }
}

/// The text made of the given pieces, with `sep` between neighbours.
pub open spec fn joined(parts: Seq<Seq<char>>, sep: char) -> Seq<char>
    decreases parts.len(),
{
    if parts.len() == 0 {
        Seq::empty()
    } else if parts.len() == 1 {
        parts[0]
    } else {
        joined(parts.drop_last(), sep) + seq![sep] + parts.last()
    }
}

/// Whether a text does not hold the character `sep`.
pub open spec fn free_of(text: Seq<char>, sep: char) -> bool {
    forall|i: int| 0 <= i < text.len() ==> #[trigger] text[i] != sep
}

/// The fields of a row of comma-separated text.
pub open spec fn fields(row: Seq<char>) -> Seq<Seq<char>> {
    pieces(row, ',')
}

/// The row made of the given fields.
pub open spec fn comma_joined(parts: Seq<Seq<char>>) -> Seq<char> {
    joined(parts, ',')
}

/// Whether a text holds no comma.
pub open spec fn comma_free(text: Seq<char>) -> bool {
    free_of(text, ',')
}

/// A text has at least one piece.
pub proof fn lemma_pieces_nonempty(text: Seq<char>, sep: char)
    ensures
        pieces(text, sep).len() >= 1,
    decreases text.len(),
{
    if text.len() > 0 {
        lemma_pieces_nonempty(text.drop_last(), sep);
    }
}

/// Text without the separator behind a text lengthens the last piece.
pub proof fn lemma_pieces_append_plain(text: Seq<char>, tail: Seq<char>, sep: char)
    requires
        free_of(tail, sep),
    ensures
        pieces(text, sep).len() >= 1,
        pieces(text + tail, sep) == pieces(text, sep).drop_last().push(
            pieces(text, sep).last() + tail,
        ),
    decreases tail.len(),
{
    lemma_pieces_nonempty(text, sep);
    let cut = pieces(text, sep);
    if tail.len() == 0 {
        assert(text + tail =~= text);
        assert(cut.last() + tail =~= cut.last());
        assert(cut.drop_last().push(cut.last()) =~= cut);
    } else {
        let shorter = tail.drop_last();
        let c = tail.last();
        assert(free_of(shorter, sep)) by {
            assert forall|i: int| 0 <= i < shorter.len() implies #[trigger] shorter[i] != sep by {
                assert(shorter[i] == tail[i]);
            }
        }
        assert(c == tail[tail.len() - 1]);
        lemma_pieces_append_plain(text, shorter, sep);
        assert((text + tail).drop_last() =~= text + shorter);
        assert((text + tail).last() == c);
        let before = pieces(text + shorter, sep);
        assert(before.drop_last() =~= cut.drop_last());
        assert(before.last().push(c) =~= cut.last() + tail);
    }
}

/// Cutting a text that was joined from pieces without the separator gives
/// the pieces back.
pub proof fn lemma_pieces_of_joined(parts: Seq<Seq<char>>, sep: char)
    requires
        parts.len() >= 1,
        forall|i: int| 0 <= i < parts.len() ==> free_of(#[trigger] parts[i], sep),
    ensures
        pieces(joined(parts, sep), sep) == parts,
    decreases parts.len(),
{
    let empty = Seq::<char>::empty();
    if parts.len() == 1 {
        lemma_pieces_append_plain(empty, parts[0], sep);
        assert(empty + parts[0] =~= parts[0]);
        assert(pieces(empty, sep) =~= seq![empty]);
        assert(pieces(parts[0], sep) =~= parts);
    } else {
        let init = parts.drop_last();
        assert forall|i: int| 0 <= i < init.len() implies free_of(#[trigger] init[i], sep) by {
            assert(init[i] == parts[i]);
        }
        lemma_pieces_of_joined(init, sep);
        let head = joined(init, sep) + seq![sep];
        assert(head.drop_last() =~= joined(init, sep));
        assert(pieces(head, sep) == init.push(empty));
        lemma_pieces_append_plain(head, parts.last(), sep);
        assert(empty + parts.last() =~= parts.last());
        assert(pieces(head + parts.last(), sep) =~= parts);
    }
}

/// The mathematical value of a list of pieces.
pub open spec fn pieces_view(parts: Seq<Vec<char>>) -> Seq<Seq<char>> {
    parts.map_values(|part: Vec<char>| part@)
}

/// Cuts a text at every occurrence of `sep`.
pub fn split_on(text: &Vec<char>, sep: char) -> (parts: Vec<Vec<char>>)
    ensures
        pieces_view(parts@) == pieces(text@, sep),
        parts@.len() >= 1,
{
    let mut parts: Vec<Vec<char>> = Vec::new();
    let mut current: Vec<char> = Vec::new();
    let mut i: usize = 0;
    assert(text@.take(0) =~= Seq::<char>::empty());
    assert(pieces_view(parts@).push(current@) =~= pieces(text@.take(0), sep));
    while i < text.len()
        invariant
            i <= text.len(),
            pieces_view(parts@).push(current@) == pieces(text@.take(i as int), sep),
        decreases text.len() - i,
    {
        let c = text[i];
        proof {
            assert(text@.take(i + 1).drop_last() =~= text@.take(i as int));
            assert(text@.take(i + 1).last() == c);
        }
        let ghost before = pieces_view(parts@).push(current@);
        if c == sep {
            parts.push(current);
            current = Vec::new();
            proof {
                assert(pieces_view(parts@) =~= before);
                assert(pieces_view(parts@).push(current@) =~= before.push(Seq::empty()));
            }
        } else {
            current.push(c);
            proof {
                assert(pieces_view(parts@).push(current@) =~= before.drop_last().push(
                    before.last().push(c),
                ));
            }
        }
        i += 1;
    }
    assert(text@.take(text.len() as int) =~= text@);
    let ghost before = pieces_view(parts@).push(current@);
    parts.push(current);
    assert(pieces_view(parts@) =~= before);
    parts
}

/// White space: the characters with the Unicode property `White_Space`.
pub open spec fn is_space_spec(c: char) -> bool {
    let n = c as u32;
    (0x09 <= n <= 0x0D) || n == 0x20 || n == 0x85 || n == 0xA0 || n == 0x1680 || (0x2000 <= n
        <= 0x200A) || n == 0x2028 || n == 0x2029 || n == 0x202F || n == 0x205F || n == 0x3000
}

/// Whether `c` is white space.
#[verifier::when_used_as_spec(is_space_spec)]
pub fn is_space(c: char) -> (b: bool)
    ensures
        b == is_space_spec(c),
{
    let n: u32 = c as u32;
    (0x09 <= n && n <= 0x0D) || n == 0x20 || n == 0x85 || n == 0xA0 || n == 0x1680 || (0x2000 <= n
        && n <= 0x200A) || n == 0x2028 || n == 0x2029 || n == 0x202F || n == 0x205F || n == 0x3000
}

/// A line of nothing but white space.
pub open spec fn is_blank_spec(line: Seq<char>) -> bool {
    forall|i: int| 0 <= i < line.len() ==> is_space_spec(#[trigger] line[i])
}

/// A piece of text without the carriage return that may end it.
pub open spec fn strip_cr(piece: Seq<char>) -> Seq<char> {
    if piece.len() > 0 && piece.last() == '\r' {
        piece.drop_last()
    } else {
        piece
    }
}

/// The lines of a text. A line ends with a line feed, or with a carriage
/// return and a line feed; what follows the last line feed is a line too,
/// unless it is empty.
pub open spec fn lines_of(text: Seq<char>) -> Seq<Seq<char>> {
    let cut = pieces(text, '\n');
    let ended = cut.drop_last().map_values(|piece: Seq<char>| strip_cr(piece));
    if cut.last().len() == 0 {
        ended
    } else {
        ended.push(cut.last())
    }
}

/// Whether a line is nothing but white space.
pub fn is_blank(line: &Vec<char>) -> (b: bool)
    ensures
        b == is_blank_spec(line@),
{
    let mut i: usize = 0;
    while i < line.len()
        invariant
            i <= line.len(),
            forall|j: int| 0 <= j < i ==> is_space_spec(#[trigger] line@[j]),
        decreases line.len() - i,
    {
        if !is_space(line[i]) {
            return false;
        }
        i += 1;
    }
    true
}

/// The first `keep` characters of a piece.
fn prefix_of(piece: &Vec<char>, keep: usize) -> (line: Vec<char>)
    requires
        keep <= piece@.len(),
    ensures
        line@ == piece@.take(keep as int),
{
    let mut line: Vec<char> = Vec::new();
    let mut i: usize = 0;
    while i < keep
        invariant
            i <= keep <= piece.len(),
            line@ == piece@.take(i as int),
        decreases keep - i,
    {
        line.push(piece[i]);
        assert(piece@.take(i + 1) =~= piece@.take(i as int).push(piece@[i as int]));
        i += 1;
    }
    line
}

/// Cuts a text into its lines.
#[verifier::loop_isolation(false)]
pub fn split_lines(text: &Vec<char>) -> (lines: Vec<Vec<char>>)
    ensures
        pieces_view(lines@) == lines_of(text@),
{
    let cut = split_on(text, '\n');
    let ghost parts = pieces(text@, '\n');
    let ghost want = lines_of(text@);
    assert(forall|i: int| 0 <= i < cut@.len() ==> (#[trigger] cut@[i])@ == parts[i]);
    let last = cut.len() - 1;
    let count: usize = if cut[last].len() == 0 {
        last
    } else {
        cut.len()
    };
    assert(want.len() == count);
    let mut lines: Vec<Vec<char>> = Vec::new();
    let mut i: usize = 0;
    while i < count
        invariant
            i <= count,
            lines@.len() == i,
            forall|j: int| 0 <= j < i ==> (#[trigger] lines@[j])@ == want[j],
        decreases count - i,
    {
        let piece = &cut[i];
        let keep: usize = if i < last && piece.len() > 0 && piece[piece.len() - 1] == '\r' {
            piece.len() - 1
        } else {
            piece.len()
        };
        let line = prefix_of(piece, keep);
        proof {
            if i < last {
                assert(piece@.take(keep as int) =~= strip_cr(piece@));
            } else {
                assert(piece@.take(keep as int) =~= piece@);
            }
        }
        lines.push(line);
        i += 1;
    }
    assert(pieces_view(lines@) =~= want);
    lines
}

} // verus!
