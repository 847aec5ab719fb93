//! Splitting of text at a separator character.

use vstd::prelude::*;

verus! {

/// The views of a sequence of strings.
pub open spec fn texts(strings: Seq<String>) -> Seq<Seq<char>> {
    strings.map_values(|t: String| t@)
}

/// The pieces of `s` that lie between the occurrences of `sep`, in order.
/// There is always one piece more than there are separators; a piece is
/// empty where two separators touch or `s` starts or ends with one.
pub open spec fn split(s: Seq<char>, sep: char) -> Seq<Seq<char>>
    decreases s.len(),
{
    if s.len() == 0 {
        seq![Seq::<char>::empty()]
    } else {
        let before = split(s.drop_last(), sep);
        if s.last() == sep {
            before.push(Seq::<char>::empty())
        } else {
            before.drop_last().push(before.last().push(s.last()))
        }
    }
}

/// There is at least one piece.
pub proof fn lemma_split_len(s: Seq<char>, sep: char)
    ensures
        split(s, sep).len() >= 1,
    decreases s.len(),
{
    if s.len() > 0 {
        lemma_split_len(s.drop_last(), sep);
    }
}

/// The pieces put together again, with `sep` between each two.
pub open spec fn join(pieces: Seq<Seq<char>>, sep: char) -> Seq<char>
    decreases pieces.len(),
{
    if pieces.len() == 0 {
        Seq::<char>::empty()
    } else if pieces.len() == 1 {
        pieces[0]
    } else {
        join(pieces.drop_last(), sep).push(sep) + pieces.last()
    }
}

/// No piece holds the separator.
pub open spec fn free_of(pieces: Seq<Seq<char>>, sep: char) -> bool {
    forall|i: int, k: int|
        0 <= i < pieces.len() && 0 <= k < pieces[i].len() ==> #[trigger] pieces[i][k] != sep
}

/// Splitting loses nothing: no piece holds the separator, and the pieces
/// joined by the separator are the text again.
pub proof fn law_split_join(s: Seq<char>, sep: char)
    ensures
        free_of(split(s, sep), sep),
        join(split(s, sep), sep) == s,
    decreases s.len(),
{
    if s.len() > 0 {
        let before = split(s.drop_last(), sep);
        law_split_join(s.drop_last(), sep);
        lemma_split_len(s.drop_last(), sep);
        let pieces = split(s, sep);
        if s.last() == sep {
            assert(pieces.drop_last() =~= before);
        } else if before.len() > 1 {
            assert(pieces.drop_last() =~= before.drop_last());
        }
        assert(s.drop_last().push(s.last()) =~= s);
    }
}

/// Splitting finds the pieces again: pieces that do not hold the
/// separator, joined by it and split at it, are the same pieces.
pub proof fn law_join_split(pieces: Seq<Seq<char>>, sep: char)
    requires
        pieces.len() >= 1,
        free_of(pieces, sep),
    ensures
        split(join(pieces, sep), sep) == pieces,
    decreases pieces.len(),
{
    if pieces.len() == 1 {
        lemma_split_free(Seq::<char>::empty(), pieces[0], sep, pieces[0].len() as int);
        assert(pieces[0].take(pieces[0].len() as int) =~= pieces[0]);
    } else {
        let init = pieces.drop_last();
        law_join_split(init, sep);
        let head = join(init, sep).push(sep);
        let tail = pieces.last();
        assert(head.drop_last() =~= join(init, sep));
        lemma_split_free(head, tail, sep, tail.len() as int);
        assert(tail.take(tail.len() as int) =~= tail);
    }
}

/// Text without the separator, put behind a text, goes to the last piece
/// of that text.
proof fn lemma_split_free(head: Seq<char>, tail: Seq<char>, sep: char, n: int)
    requires
        0 <= n <= tail.len(),
        forall|k: int| 0 <= k < tail.len() ==> tail[k] != sep,
    ensures
        split(head + tail.take(n), sep) == split(head, sep).drop_last().push(
            split(head, sep).last() + tail.take(n),
        ),
    decreases n,
{
    lemma_split_len(head, sep);
    let pieces = split(head, sep);
    if n > 0 {
        lemma_split_free(head, tail, sep, n - 1);
        let longer = head + tail.take(n);
        assert(longer.drop_last() =~= head + tail.take(n - 1));
        let before = split(longer.drop_last(), sep);
        assert(before.last().push(tail[n - 1]) =~= pieces.last() + tail.take(n));
    }
}

/// Splits `s` at every occurrence of `sep`.
pub fn split_str(s: &str, sep: char) -> (parts: Vec<String>)
    ensures
        texts(parts@) == split(s@, sep),
{
    let n = s.unicode_len();
    let mut parts: Vec<String> = Vec::new();
    let mut start: usize = 0;
    let mut i: usize = 0;
    assert(s@.subrange(0, 0) =~= Seq::<char>::empty());
    for c in it: s.chars()
        invariant
            n == s@.len(),
            it.seq() == s@,
            i == it.index(),
            start <= i <= n,
            texts(parts@).push(s@.subrange(start as int, i as int)) == split(
                s@.subrange(0, i as int),
                sep,
            ),
    {
        let ghost piece = s@.subrange(start as int, i as int);
        assert(s@.subrange(0, i + 1).drop_last() =~= s@.subrange(0, i as int));
        if c == sep {
            parts.push(s.substring_char(start, i).to_owned());
            start = i + 1;
            assert(s@.subrange(start as int, i + 1) =~= Seq::<char>::empty());
        } else {
            assert(s@.subrange(start as int, i + 1) =~= piece.push(c));
        }
        i += 1;
    }
    assert(s@.subrange(0, n as int) =~= s@);
    parts.push(s.substring_char(start, n).to_owned());
    parts
}

} // verus!
