//! Fields: a line of text cut at every occurrence of a separator character.

use vstd::prelude::*;
use crate::text::chars::{copy_range, views};
use crate::runs::{first_index, other_than, lemma_run_length_found, lemma_run_length_is_maximal, lemma_first_index_contains};

verus! {

/// The pieces of `s` between occurrences of `sep`. A text with `n`
/// separators has `n + 1` pieces, some of which may be empty.
pub open spec fn split(s: Seq<char>, sep: char) -> Seq<Seq<char>>
    decreases s.len(),
{
    let k = first_index(s, sep);
    if 0 <= k < s.len() {
        seq![s.take(k)] + split(s.skip(k + 1), sep)
    } else {
        seq![s]
    }
}

/// The pieces written one after the other with `sep` between neighbours.
pub open spec fn join(pieces: Seq<Seq<char>>, sep: char) -> Seq<char>
    decreases pieces.len(),
{
    if pieces.len() == 0 {
        Seq::empty()
    } else if pieces.len() == 1 {
        pieces[0]
    } else {
        pieces[0] + seq![sep] + join(pieces.drop_first(), sep)
    }
}

/// Whether none of the pieces holds the character `c`.
pub open spec fn none_contains(pieces: Seq<Seq<char>>, c: char) -> bool {
    forall|i: int| 0 <= i < pieces.len() ==> !(#[trigger] pieces[i]).contains(c)
}

/// Cutting a text gives at least one piece, no piece holds the separator, and
/// joining the pieces gives the text back.
pub proof fn lemma_join_split(s: Seq<char>, sep: char)
    ensures
        split(s, sep).len() >= 1,
        none_contains(split(s, sep), sep),
        join(split(s, sep), sep) == s,
    decreases s.len(),
{
    lemma_first_index_contains(s, sep);
    lemma_run_length_is_maximal(s, other_than(sep));
    let k = first_index(s, sep);
    if 0 <= k < s.len() {
        let rest = s.skip(k + 1);
        lemma_join_split(rest, sep);
        let pieces = split(s, sep);
        assert(pieces.drop_first() == split(rest, sep));
        assert(pieces[0] == s.take(k));
        assert(!s.take(k).contains(sep)) by {
            if s.take(k).contains(sep) {
                let j = choose|j: int| 0 <= j < k && s.take(k)[j] == sep;
                assert(other_than(sep)(s[j]));
            }
        }
        assert forall|i: int| 0 <= i < pieces.len() implies !(#[trigger] pieces[i]).contains(
            sep,
        ) by {
            if i > 0 {
                assert(pieces[i] == split(rest, sep)[i - 1]);
            }
        }
        assert(s == s.take(k) + seq![sep] + rest);
    } else {
    }
}

/// Joining pieces that are free of the separator and cutting the result
/// gives the same pieces back.
pub proof fn lemma_split_join(pieces: Seq<Seq<char>>, sep: char)
    requires
        pieces.len() >= 1,
        none_contains(pieces, sep),
    ensures
        split(join(pieces, sep), sep) == pieces,
    decreases pieces.len(),
{
    let s = join(pieces, sep);
    let head = pieces[0];
    assert(!head.contains(sep));
    if pieces.len() == 1 {
        lemma_first_index_contains(s, sep);
        assert(split(s, sep) == seq![s]);
    } else {
        let tail = pieces.drop_first();
        assert forall|i: int| 0 <= i < tail.len() implies !(#[trigger] tail[i]).contains(sep) by {
            assert(tail[i] == pieces[i + 1]);
        }
        lemma_split_join(tail, sep);
        let k = head.len() as int;
        assert forall|j: int| 0 <= j < k implies other_than(sep)(#[trigger] s[j]) by {
            assert(s[j] == head[j]);
            assert(head.contains(head[j]));
        }
        assert(s[k] == sep);
        lemma_run_length_found(s, other_than(sep), k);
        assert(s.take(k) == head);
        assert(s.skip(k + 1) == join(tail, sep));
        assert(split(s, sep) == seq![head] + tail);
    }
}

/// A character that is not the separator and that no piece holds does not
/// occur in the joined text.
pub proof fn lemma_join_avoids(pieces: Seq<Seq<char>>, sep: char, c: char)
    requires
        c != sep,
        none_contains(pieces, c),
    ensures
        !join(pieces, sep).contains(c),
    decreases pieces.len(),
{
    let s = join(pieces, sep);
    if pieces.len() == 0 {
    } else if pieces.len() == 1 {
        assert(!pieces[0].contains(c));
    } else {
        let tail = pieces.drop_first();
        assert forall|i: int| 0 <= i < tail.len() implies !(#[trigger] tail[i]).contains(c) by {
            assert(tail[i] == pieces[i + 1]);
        }
        lemma_join_avoids(tail, sep, c);
        assert(!pieces[0].contains(c));
        let head = pieces[0];
        let rest = join(tail, sep);
        assert forall|j: int| 0 <= j < s.len() implies s[j] != c by {
            if j < head.len() {
                assert(head.contains(head[j]));
            } else if j > head.len() {
                assert(s[j] == rest[j - head.len() - 1]);
                assert(rest.contains(rest[j - head.len() - 1]));
            }
        }
    }
}

/// A joined text whose last piece is not empty ends as that piece does.
pub proof fn lemma_join_ends(pieces: Seq<Seq<char>>, sep: char)
    requires
        pieces.len() >= 1,
        pieces.last().len() > 0,
    ensures
        join(pieces, sep).len() > 0,
        join(pieces, sep).last() == pieces.last().last(),
    decreases pieces.len(),
{
    if pieces.len() > 1 {
        let tail = pieces.drop_first();
        assert(tail.last() == pieces.last());
        lemma_join_ends(tail, sep);
    }
}

/// Cuts `chars` at every `sep`.
pub fn split_at_char(chars: &Vec<char>, sep: char) -> (pieces: Vec<Vec<char>>)
    ensures
        views(pieces@) == split(chars@, sep),
{
    let n = chars.len();
    let mut pieces: Vec<Vec<char>> = Vec::new();
    let mut start: usize = 0;
    let mut i: usize = 0;
    assert(chars@.skip(0) == chars@);
    assert(views(pieces@) + split(chars@.skip(0), sep) == split(chars@, sep));
    while i < n
        invariant
            start <= i <= n == chars.len(),
            forall|j: int| start <= j < i ==> chars@[j] != sep,
            views(pieces@) + split(chars@.skip(start as int), sep) == split(chars@, sep),
        decreases n - i,
    {
        if chars[i] == sep {
            let piece = copy_range(chars, start, i);
            proof {
                let rest = chars@.skip(start as int);
                let k = i - start;
                assert forall|j: int| 0 <= j < k implies other_than(sep)(#[trigger] rest[j]) by {
                    assert(rest[j] == chars@[start + j]);
                }
                lemma_run_length_found(rest, other_than(sep), k);
                assert(rest.take(k) == piece@);
                assert(rest.skip(k + 1) == chars@.skip(i + 1));
                assert(views(pieces@.push(piece)) == views(pieces@) + seq![piece@]);
            }
            pieces.push(piece);
            start = i + 1;
        }
        i += 1;
    }
    let piece = copy_range(chars, start, n);
    proof {
        let rest = chars@.skip(start as int);
        assert forall|j: int| 0 <= j < rest.len() implies other_than(sep)(#[trigger] rest[j]) by {
            assert(rest[j] == chars@[start + j]);
        }
        lemma_run_length_found(rest, other_than(sep), rest.len() as int);
        assert(rest == piece@);
        assert(views(pieces@.push(piece)) == views(pieces@) + seq![piece@]);
    }
    pieces.push(piece);
    pieces
}

} // verus!
