//! Cutting a run of characters at every occurrence of a separator.

use vstd::prelude::*;

verus! {

/// The pieces of `s` between occurrences of `sep`, in order. There is always
/// at least one piece; a separator at either end, or two in a row, give an
/// empty piece.
pub open spec fn split(s: Seq<char>, sep: char) -> Seq<Seq<char>>
    decreases s.len(),
{
    if s.len() == 0 {
        seq![Seq::<char>::empty()]
    } else {
        let before = split(s.drop_last(), sep);
        if s.last() == sep {
            before.push(Seq::<char>::empty())
        } else {
            before.drop_last().push(before.last().push(s.last()))
        }
    }
}

/// The pieces written one after the other with `sep` between neighbours.
pub open spec fn join(pieces: Seq<Seq<char>>, sep: char) -> Seq<char>
    decreases pieces.len(),
{
    if pieces.len() == 0 {
        Seq::<char>::empty()
    } else if pieces.len() == 1 {
        pieces[0]
    } else {
        join(pieces.drop_last(), sep).push(sep) + pieces.last()
    }
}

/// How often `sep` occurs in `s`.
pub open spec fn count(s: Seq<char>, sep: char) -> nat
    decreases s.len(),
{
    if s.len() == 0 {
        0
    } else if s.last() == sep {
        count(s.drop_last(), sep) + 1
    } else {
        count(s.drop_last(), sep)
    }
}

/// The views of the rows of a vector of character vectors.
pub open spec fn rows(v: Seq<Vec<char>>) -> Seq<Seq<char>> {
    v.map_values(|row: Vec<char>| row@)
}

/// A text has one piece more than it has separators.
pub proof fn lemma_split_len(s: Seq<char>, sep: char)
    ensures
        split(s, sep).len() == count(s, sep) + 1,
    decreases s.len(),
{
    if s.len() > 0 {
        lemma_split_len(s.drop_last(), sep);
    }
}

/// Joining the pieces with the separator gives the text back.
pub proof fn lemma_join_split(s: Seq<char>, sep: char)
    ensures
        join(split(s, sep), sep) == s,
    decreases s.len(),
{
    if s.len() > 0 {
        let before = split(s.drop_last(), sep);
        lemma_join_split(s.drop_last(), sep);
        lemma_split_len(s.drop_last(), sep);
        if s.last() == sep {
            let now = before.push(Seq::<char>::empty());
            assert(now.drop_last() == before);
            assert(join(now, sep) == join(before, sep).push(sep) + Seq::<char>::empty());
            assert(join(before, sep).push(sep) == s);
        } else {
            let grown = before.last().push(s.last());
            let now = before.drop_last().push(grown);
            assert(now.drop_last() == before.drop_last());
            if before.len() == 1 {
                assert(join(now, sep) == grown);
                assert(grown == s);
            } else {
                assert(join(now, sep) == join(before.drop_last(), sep).push(sep) + grown);
                assert(join(before, sep) == join(before.drop_last(), sep).push(sep)
                    + before.last());
                assert(join(now, sep) == join(before, sep).push(s.last()));
                assert(join(before, sep).push(s.last()) == s);
            }
        }
    }
}

/// Characters other than the separator, added at the end, lengthen the last
/// piece and leave the others as they are.
pub proof fn lemma_split_extend(s: Seq<char>, tail: Seq<char>, sep: char)
    requires
        !tail.contains(sep),
    ensures
        split(s + tail, sep) == split(s, sep).drop_last().push(split(s, sep).last() + tail),
    decreases tail.len(),
{
    lemma_split_len(s, sep);
    let pieces = split(s, sep);
    if tail.len() == 0 {
        assert(s + tail == s);
        assert(pieces.last() + tail == pieces.last());
        assert(pieces.drop_last().push(pieces.last()) == pieces);
    } else {
        let shorter = tail.drop_last();
        assert(!shorter.contains(sep)) by {
            if shorter.contains(sep) {
                let i = choose|i: int| 0 <= i < shorter.len() && shorter[i] == sep;
                assert(tail[i] == sep);
            }
        }
        lemma_split_extend(s, shorter, sep);
        assert((s + tail).drop_last() == s + shorter);
        assert((s + tail).last() == tail.last());
        assert(tail.last() != sep) by {
            assert(tail[tail.len() - 1] == tail.last());
        }
        let before = split(s + shorter, sep);
        assert(before.drop_last() == pieces.drop_last());
        assert(before.last() == pieces.last() + shorter);
        assert((pieces.last() + shorter).push(tail.last()) == pieces.last() + tail);
    }
}

/// A text without the separator is its own single piece.
pub proof fn lemma_split_whole(s: Seq<char>, sep: char)
    requires
        !s.contains(sep),
    ensures
        split(s, sep) == seq![s],
{
    let nothing = Seq::<char>::empty();
    lemma_split_extend(nothing, s, sep);
    assert(nothing + s == s);
    assert(split(nothing, sep) == seq![nothing]);
    assert(seq![nothing].drop_last().push(nothing + s) == seq![s]);
}

/// Cutting two texts written one after the other, with a separator between
/// them, gives the pieces of the first followed by the pieces of the second.
pub proof fn lemma_split_concat(a: Seq<char>, b: Seq<char>, sep: char)
    ensures
        split(a.push(sep) + b, sep) == split(a, sep) + split(b, sep),
    decreases b.len(),
{
    let left = split(a, sep);
    lemma_split_len(a, sep);
    if b.len() == 0 {
        assert(a.push(sep) + b == a.push(sep));
        assert(a.push(sep).drop_last() == a);
        assert(split(b, sep) == seq![Seq::<char>::empty()]);
        assert(left.push(Seq::<char>::empty()) == left + seq![Seq::<char>::empty()]);
    } else {
        let whole = a.push(sep) + b;
        lemma_split_concat(a, b.drop_last(), sep);
        lemma_split_len(b.drop_last(), sep);
        assert(whole.drop_last() == a.push(sep) + b.drop_last());
        assert(whole.last() == b.last());
        let right = split(b.drop_last(), sep);
        let before = left + right;
        if b.last() == sep {
            assert(before.push(Seq::<char>::empty()) == left + right.push(
                Seq::<char>::empty(),
            ));
        } else {
            assert(before.last() == right.last());
            assert(before.drop_last() == left + right.drop_last());
            assert((left + right.drop_last()).push(right.last().push(b.last())) == left
                + right.drop_last().push(right.last().push(b.last())));
        }
    }
}

/// Cutting is the only way to write a text as separator-free pieces joined by
/// the separator.
pub proof fn lemma_split_join(pieces: Seq<Seq<char>>, sep: char)
    requires
        pieces.len() >= 1,
        forall|i: int| 0 <= i < pieces.len() ==> !(#[trigger] pieces[i]).contains(sep),
    ensures
        split(join(pieces, sep), sep) == pieces,
    decreases pieces.len(),
{
    if pieces.len() == 1 {
        lemma_split_whole(pieces[0], sep);
        assert(seq![pieces[0]] == pieces);
    } else {
        let front = pieces.drop_last();
        assert forall|i: int| 0 <= i < front.len() implies !(#[trigger] front[i]).contains(
            sep,
        ) by {
            assert(front[i] == pieces[i]);
        }
        lemma_split_join(front, sep);
        lemma_split_concat(join(front, sep), pieces.last(), sep);
        assert(!pieces[pieces.len() - 1].contains(sep));
        lemma_split_whole(pieces.last(), sep);
        assert(front + seq![pieces.last()] == pieces);
    }
}

/// Cutting pieces that were joined gives what cutting all but the last piece,
/// joined, gives, followed by what cutting the last piece gives.
pub proof fn lemma_split_joined(pieces: Seq<Seq<char>>, sep: char)
    requires
        pieces.len() >= 2,
    ensures
        split(join(pieces, sep), sep) == split(join(pieces.drop_last(), sep), sep) + split(
            pieces.last(),
            sep,
        ),
{
    lemma_split_concat(join(pieces.drop_last(), sep), pieces.last(), sep);
}

/// A character that is in none of the pieces, and is not the separator, is
/// not in what joining them gives.
pub proof fn lemma_join_free(pieces: Seq<Seq<char>>, sep: char, c: char)
    requires
        c != sep,
        forall|i: int| 0 <= i < pieces.len() ==> !(#[trigger] pieces[i]).contains(c),
    ensures
        !join(pieces, sep).contains(c),
    decreases pieces.len(),
{
    let joined = join(pieces, sep);
    if pieces.len() == 1 {
        assert(!pieces[0].contains(c));
    } else if pieces.len() >= 2 {
        let front = pieces.drop_last();
        assert forall|i: int| 0 <= i < front.len() implies !(#[trigger] front[i]).contains(
            c,
        ) by {
            assert(front[i] == pieces[i]);
        }
        lemma_join_free(front, sep, c);
        let head = join(front, sep).push(sep);
        assert(!pieces[pieces.len() - 1].contains(c));
        if joined.contains(c) {
            let i = choose|i: int| 0 <= i < joined.len() && joined[i] == c;
            if i < head.len() - 1 {
                assert(join(front, sep)[i] == c);
            } else if i >= head.len() {
                assert(pieces.last()[i - head.len()] == c);
            }
        }
    }
}

/// The last piece of a text ends where the text ends.
pub proof fn lemma_last_piece(s: Seq<char>, sep: char)
    ensures
        split(s, sep).len() >= 1,
        split(s, sep).last().len() > 0 ==> s.len() > 0 && split(s, sep).last().last() == s.last(),
{
    lemma_split_len(s, sep);
    if s.len() > 0 {
        lemma_split_len(s.drop_last(), sep);
    }
}

/// Cuts a run of characters at every occurrence of `sep`.
pub fn split_chars(s: &[char], sep: char) -> (pieces: Vec<Vec<char>>)
    ensures
        rows(pieces@) == split(s@, sep),
{
    let mut pieces: Vec<Vec<char>> = Vec::new();
    let mut piece: Vec<char> = Vec::new();
    let mut i: usize = 0;
    while i < s.len()
        invariant
            i <= s.len(),
            split(s@.take(i as int), sep) == rows(pieces@).push(piece@),
        decreases s.len() - i,
    {
        let ghost before = rows(pieces@).push(piece@);
        assert(s@.take(i + 1).drop_last() == s@.take(i as int));
        if s[i] == sep {
            pieces.push(piece);
            piece = Vec::new();
            assert(rows(pieces@) == before);
        } else {
            piece.push(s[i]);
            assert(before.drop_last() == rows(pieces@));
        }
        i += 1;
    }
    assert(s@.take(s.len() as int) == s@);
    let ghost before = rows(pieces@);
    pieces.push(piece);
    assert(rows(pieces@) == before.push(piece@));
    pieces
}

} // verus!
