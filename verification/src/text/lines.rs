//! Lines: a text cut at its line endings.
//!
//! A line ends with a line feed, which may have a carriage return before it;
//! neither belongs to the line. The last line may lack its ending.

use vstd::prelude::*;
use crate::text::chars::{copy_range, views};
use crate::runs::{first_index, other_than, lemma_run_length_found, lemma_run_length_is_maximal};

verus! {

/// `s` without one carriage return at its end, if it has one.
pub open spec fn without_cr(s: Seq<char>) -> Seq<char> {
    if s.len() > 0 && s.last() == '\r' {
        s.drop_last()
    } else {
        s
    }
}

/// The lines of `s`. The empty text has no lines; a text that ends with a
/// line ending has the same lines as the text without that ending; a carriage
/// return is dropped only where a line feed follows it.
pub open spec fn lines(s: Seq<char>) -> Seq<Seq<char>>
    decreases s.len(),
{
    if s.len() == 0 {
        Seq::empty()
    } else {
        let k = first_index(s, '\n');
        if 0 <= k < s.len() {
            seq![without_cr(s.take(k))] + lines(s.skip(k + 1))
        } else {
            seq![s]
        }
    }
}

/// The text made by ending each of the given lines with a line feed.
pub open spec fn unlines(ls: Seq<Seq<char>>) -> Seq<char>
    decreases ls.len(),
{
    if ls.len() == 0 {
        Seq::empty()
    } else {
        ls[0] + seq!['\n'] + unlines(ls.drop_first())
    }
}

/// Whether `line` can be written as one line and read back unchanged: it
/// holds no line feed and does not end with a carriage return.
pub open spec fn is_plain_line(line: Seq<char>) -> bool {
    !line.contains('\n') && without_cr(line) == line
}

/// No line holds a line feed.
pub proof fn lemma_lines_hold_no_line_feed(s: Seq<char>)
    ensures
        forall|i: int| 0 <= i < lines(s).len() ==> !(#[trigger] lines(s)[i]).contains('\n'),
    decreases s.len(),
{
    if s.len() > 0 {
        lemma_run_length_is_maximal(s, other_than('\n'));
        let k = first_index(s, '\n');
        let head = s.take(k);
        assert forall|j: int| 0 <= j < head.len() implies head[j] != '\n' by {
            assert(other_than('\n')(s[j]));
        }
        if 0 <= k < s.len() {
            let rest = lines(s.skip(k + 1));
            lemma_lines_hold_no_line_feed(s.skip(k + 1));
            assert forall|i: int| 0 <= i < lines(s).len() implies !(#[trigger] lines(s)[i]).contains(
                '\n',
            ) by {
                if i == 0 {
                    let line = without_cr(head);
                    assert forall|j: int| 0 <= j < line.len() implies line[j] != '\n' by {
                        assert(line[j] == head[j]);
                    }
                } else {
                    assert(lines(s)[i] == rest[i - 1]);
                }
            }
        } else {
            assert(head == s);
        }
    }
}

/// Ending one more line with a line feed appends that line and the line feed
/// to the text.
pub proof fn lemma_unlines_push(ls: Seq<Seq<char>>, line: Seq<char>)
    ensures
        unlines(ls.push(line)) == unlines(ls) + line + seq!['\n'],
    decreases ls.len(),
{
    if ls.len() == 0 {
        let none = ls.push(line).drop_first();
        assert(none.len() == 0);
        assert(unlines(none) == Seq::<char>::empty());
        assert(unlines(ls) == Seq::<char>::empty());
        assert(unlines(ls.push(line)) == line + seq!['\n'] + unlines(none));
    } else {
        assert(ls.push(line).drop_first() == ls.drop_first().push(line));
        lemma_unlines_push(ls.drop_first(), line);
        assert(unlines(ls.push(line)) == ls[0] + seq!['\n'] + (unlines(ls.drop_first()) + line
            + seq!['\n']));
    }
}

/// Plain lines, each written with a line feed after it, are read back as the
/// same lines.
pub proof fn lemma_lines_unlines(ls: Seq<Seq<char>>)
    requires
        forall|i: int| 0 <= i < ls.len() ==> is_plain_line(#[trigger] ls[i]),
    ensures
        lines(unlines(ls)) == ls,
    decreases ls.len(),
{
    let s = unlines(ls);
    if ls.len() == 0 {
    } else {
        let head = ls[0];
        let tail = ls.drop_first();
        assert(is_plain_line(head));
        assert forall|i: int| 0 <= i < tail.len() implies is_plain_line(#[trigger] tail[i]) by {
            assert(tail[i] == ls[i + 1]);
        }
        lemma_lines_unlines(tail);
        let k = head.len() as int;
        assert forall|j: int| 0 <= j < k implies other_than('\n')(#[trigger] s[j]) by {
            assert(s[j] == head[j]);
            assert(head.contains(head[j]));
        }
        assert(s[k] == '\n');
        lemma_run_length_found(s, other_than('\n'), k);
        assert(s.take(k) == head);
        assert(s.skip(k + 1) == unlines(tail));
        assert(lines(s) == seq![head] + tail);
    }
}

/// Cuts `chars` into its lines.
pub fn split_lines(chars: &Vec<char>) -> (pieces: Vec<Vec<char>>)
    ensures
        views(pieces@) == lines(chars@),
{
    let n = chars.len();
    let mut pieces: Vec<Vec<char>> = Vec::new();
    let mut start: usize = 0;
    let mut i: usize = 0;
    assert(chars@.skip(0) == chars@);
    assert(views(pieces@) + lines(chars@.skip(0)) == lines(chars@));
    while i < n
        invariant
            start <= i <= n == chars.len(),
            forall|j: int| start <= j < i ==> chars@[j] != '\n',
            views(pieces@) + lines(chars@.skip(start as int)) == lines(chars@),
        decreases n - i,
    {
        if chars[i] == '\n' {
            let end: usize = if start < i && chars[i - 1] == '\r' { i - 1 } else { i };
            let piece = copy_range(chars, start, end);
            proof {
                let rest = chars@.skip(start as int);
                let k = i - start;
                assert forall|j: int| 0 <= j < k implies other_than('\n')(#[trigger] rest[j]) by {
                    assert(rest[j] == chars@[start + j]);
                }
                lemma_run_length_found(rest, other_than('\n'), k);
                assert(without_cr(rest.take(k)) == piece@);
                assert(rest.skip(k + 1) == chars@.skip(i + 1));
                assert(views(pieces@.push(piece)) == views(pieces@) + seq![piece@]);
            }
            pieces.push(piece);
            start = i + 1;
        }
        i += 1;
    }
    if start < n {
        let piece = copy_range(chars, start, n);
        proof {
            let rest = chars@.skip(start as int);
            assert forall|j: int| 0 <= j < rest.len() implies other_than('\n')(
                #[trigger] rest[j],
            ) by {
                assert(rest[j] == chars@[start + j]);
            }
            lemma_run_length_found(rest, other_than('\n'), rest.len() as int);
            assert(rest == piece@);
            assert(views(pieces@.push(piece)) == views(pieces@) + seq![piece@]);
        }
        pieces.push(piece);
    } else {
        assert(chars@.skip(start as int).len() == 0);
        assert(views(pieces@) + Seq::<Seq<char>>::empty() == views(pieces@));
    }
    pieces
}

} // verus!
