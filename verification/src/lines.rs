//! The lines of a text file.
//!
//! A line ends at a line feed; a carriage return directly before that line
//! feed belongs to the line ending. What follows the last line feed is a line
//! of its own unless it is empty, and keeps a carriage return at its end.

use vstd::prelude::*;
use crate::split::{
    join,
    lemma_join_split,
    lemma_last_piece,
    lemma_split_extend,
    lemma_split_len,
    rows,
    split,
};

verus! {

/// A piece without the carriage return at its end, if it has one.
pub open spec fn strip_cr(piece: Seq<char>) -> Seq<char> {
    if piece.len() > 0 && piece.last() == '\r' {
        piece.drop_last()
    } else {
        piece
    }
}

/// Every piece without the carriage return at its end.
pub open spec fn strip_all(pieces: Seq<Seq<char>>) -> Seq<Seq<char>> {
    pieces.map_values(|piece: Seq<char>| strip_cr(piece))
}

/// The lines of a text, in order, without their line endings.
pub open spec fn lines_of(text: Seq<char>) -> Seq<Seq<char>> {
    let pieces = split(text, '\n');
    let ended = strip_all(pieces.drop_last());
    if pieces.last().len() == 0 {
        ended
    } else {
        ended.push(pieces.last())
    }
}

/// The text in which every given line is followed by a line feed.
pub open spec fn join_lines(lines: Seq<Seq<char>>) -> Seq<char>
    decreases lines.len(),
{
    if lines.len() == 0 {
        Seq::<char>::empty()
    } else {
        join_lines(lines.drop_last()) + lines.last().push('\n')
    }
}

/// A text in which every line is ended by a line feed: it is empty or ends in
/// one.
pub open spec fn ends_lines(text: Seq<char>) -> bool {
    text.len() == 0 || text.last() == '\n'
}

/// A text with a line feed behind its last line, where none stands there
/// yet: a text whose lines are all ended stays as it is.
pub open spec fn ended(text: Seq<char>) -> Seq<char> {
    if ends_lines(text) {
        text
    } else {
        text.push('\n')
    }
}

/// A text whose last line is not ended and has a carriage return at its end.
/// A line feed behind it makes that carriage return part of the line ending.
pub open spec fn open_cr(text: Seq<char>) -> bool {
    text.len() > 0 && text.last() == '\r'
}

/// A text in which no line feed follows a carriage return.
pub open spec fn plain_endings(text: Seq<char>) -> bool {
    forall|i: int| 0 < i < text.len() && #[trigger] text[i] == '\n' ==> text[i - 1] != '\r'
}

/// A text whose lines are all ended has a last piece that is empty, and its
/// lines are the other pieces without their carriage returns.
pub proof fn lemma_lines_ended(text: Seq<char>)
    requires
        ends_lines(text),
    ensures
        split(text, '\n').last().len() == 0,
        lines_of(text) == strip_all(split(text, '\n').drop_last()),
{
    if text.len() > 0 {
        lemma_split_len(text.drop_last(), '\n');
    }
}

/// Ending the last line of a text leaves the number of its lines, and leaves
/// the lines themselves but for a carriage return at the end of the last.
pub proof fn lemma_lines_of_ended(text: Seq<char>)
    ensures
        ends_lines(ended(text)),
        lines_of(ended(text)).len() == lines_of(text).len(),
        !ends_lines(text) ==> lines_of(ended(text)) == lines_of(text).drop_last().push(
            strip_cr(lines_of(text).last()),
        ),
        !open_cr(text) ==> lines_of(ended(text)) == lines_of(text),
{
    if !ends_lines(text) {
        let pieces = split(text, '\n');
        let whole = text.push('\n');
        lemma_split_len(text, '\n');
        lemma_last_piece(text, '\n');
        lemma_split_len(text.drop_last(), '\n');
        assert(whole.drop_last() == text);
        assert(split(whole, '\n') == pieces.push(Seq::<char>::empty()));
        assert(pieces.push(Seq::<char>::empty()).drop_last() == pieces);
        assert(pieces.last().len() > 0);
        assert(pieces == pieces.drop_last().push(pieces.last()));
        assert(strip_all(pieces) == strip_all(pieces.drop_last()).push(strip_cr(pieces.last())));
        let listed = lines_of(text);
        assert(listed == strip_all(pieces.drop_last()).push(pieces.last()));
        assert(listed.drop_last() == strip_all(pieces.drop_last()));
        if !open_cr(text) {
            assert(pieces.last().last() == text.last());
            assert(strip_cr(pieces.last()) == pieces.last());
        }
    }
}

/// One more line, written after a text whose lines are all ended and followed
/// by a line feed, is one more line of the text.
pub proof fn lemma_lines_push(text: Seq<char>, line: Seq<char>)
    requires
        ends_lines(text),
        !line.contains('\n'),
    ensures
        lines_of(text + line.push('\n')) == lines_of(text).push(strip_cr(line)),
        ends_lines(text + line.push('\n')),
{
    let whole = text + line.push('\n');
    lemma_lines_ended(text);
    lemma_split_len(text, '\n');
    lemma_split_extend(text, line, '\n');
    assert(whole.drop_last() == text + line);
}

/// In a text without carriage returns before line feeds, no piece that a
/// line feed ends has a carriage return at its end.
proof fn lemma_plain_pieces(text: Seq<char>)
    requires
        plain_endings(text),
    ensures
        strip_all(split(text, '\n').drop_last()) == split(text, '\n').drop_last(),
    decreases text.len(),
{
    let pieces = split(text, '\n');
    lemma_split_len(text, '\n');
    if text.len() > 0 {
        let shorter = text.drop_last();
        let before = split(shorter, '\n');
        assert(plain_endings(shorter)) by {
            assert forall|i: int|
                0 < i < shorter.len() && #[trigger] shorter[i] == '\n' implies shorter[i - 1]
                != '\r' by {}
        }
        lemma_plain_pieces(shorter);
        lemma_split_len(shorter, '\n');
        lemma_last_piece(shorter, '\n');
        if text.last() == '\n' {
            assert(pieces.drop_last() == before);
            assert(strip_all(before) == strip_all(before.drop_last()).push(
                strip_cr(before.last()),
            ));
        }
    }
}

/// Lines that are each followed by a line feed are the pieces that the line
/// feeds end.
proof fn lemma_join_lines(lines: Seq<Seq<char>>)
    ensures
        join_lines(lines) == join(lines.push(Seq::<char>::empty()), '\n'),
    decreases lines.len(),
{
    let nothing = Seq::<char>::empty();
    let sep = '\n';
    if lines.len() > 0 {
        let front = lines.drop_last();
        lemma_join_lines(front);
        assert(lines.push(nothing).drop_last() == lines);
        assert(join(lines.push(nothing), sep) == join(lines, sep).push(sep) + nothing);
        if front.len() > 0 {
            assert(front.push(nothing).drop_last() == front);
            assert(join(front.push(nothing), sep) == join(front, sep).push(sep) + nothing);
            assert(join(lines, sep) == join(front, sep).push(sep) + lines.last());
        }
    }
}

/// A text in which a line feed ends every line, and no carriage return stands
/// before a line feed, is its lines, each followed by a line feed.
pub proof fn lemma_join_lines_of(text: Seq<char>)
    requires
        ends_lines(text),
        plain_endings(text),
    ensures
        join_lines(lines_of(text)) == text,
{
    let pieces = split(text, '\n');
    lemma_lines_ended(text);
    lemma_plain_pieces(text);
    lemma_split_len(text, '\n');
    lemma_join_lines(pieces.drop_last());
    assert(pieces.drop_last().push(Seq::<char>::empty()) == pieces);
    lemma_join_split(text, '\n');
}

/// Whether a line feed ends every line of a text.
pub fn ends_its_lines(text: &[char]) -> (whole: bool)
    ensures
        whole == ends_lines(text@),
{
    let n = text.len();
    n == 0 || text[n - 1] == '\n'
}

/// Cuts a text into its lines.
pub fn lines(text: &[char]) -> (out: Vec<Vec<char>>)
    ensures
        rows(out@) == lines_of(text@),
{
    let mut out: Vec<Vec<char>> = Vec::new();
    let mut piece: Vec<char> = Vec::new();
    let ghost mut ended: Seq<Seq<char>> = Seq::empty();
    let mut i: usize = 0;
    while i < text.len()
        invariant
            i <= text.len(),
            split(text@.take(i as int), '\n') == ended.push(piece@),
            rows(out@) == strip_all(ended),
        decreases text.len() - i,
    {
        assert(text@.take(i + 1).drop_last() == text@.take(i as int));
        if text[i] == '\n' {
            let ghost raw = piece@;
            let n = piece.len();
            if n > 0 && piece[n - 1] == '\r' {
                piece.pop();
            }
            let ghost listed = rows(out@);
            out.push(piece);
            piece = Vec::new();
            proof {
                assert(rows(out@) == listed.push(strip_cr(raw)));
                ended = ended.push(raw);
            }
        } else {
            piece.push(text[i]);
        }
        i += 1;
    }
    assert(text@.take(text.len() as int) == text@);
    assert(ended.push(piece@).drop_last() == ended);
    if piece.len() > 0 {
        out.push(piece);
    }
    out
}

} // verus!
