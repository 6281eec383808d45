//! Words: the stretches of a text between white space.

use vstd::prelude::*;
use crate::text::chars::{copy_range, views};
use crate::runs::{run_length, lemma_run_length_found, lemma_run_length_is_maximal};

verus! {

/// Whether `c` is white space: a blank, a tab, a line or page break, or one
/// of the wider and narrower spaces beyond ASCII.
pub open spec fn is_space(c: char) -> bool {
    ||| '\u{9}' <= c <= '\u{d}'
    ||| c == ' '
    ||| c == '\u{85}'
    ||| c == '\u{a0}'
    ||| c == '\u{1680}'
    ||| '\u{2000}' <= c <= '\u{200a}'
    ||| c == '\u{2028}'
    ||| c == '\u{2029}'
    ||| c == '\u{202f}'
    ||| c == '\u{205f}'
    ||| c == '\u{3000}'
}

/// The property of being white space.
pub open spec fn space() -> spec_fn(char) -> bool {
    |c: char| is_space(c)
}

/// The property of being anything but white space.
pub open spec fn ink() -> spec_fn(char) -> bool {
    |c: char| !is_space(c)
}

/// The words of `s`, in order: each a longest stretch without white space.
/// No word is empty.
pub open spec fn words(s: Seq<char>) -> Seq<Seq<char>>
    decreases s.len(),
{
    let gap = run_length(s, space());
    let rest = s.skip(gap);
    let len = run_length(rest, ink());
    if 0 <= gap < s.len() && 0 < len <= rest.len() {
        seq![rest.take(len)] + words(rest.skip(len))
    } else {
        Seq::empty()
    }
}

/// Every word has at least one character, and none of them is white space.
pub proof fn lemma_words_are_ink(s: Seq<char>)
    ensures
        forall|i: int|
            0 <= i < words(s).len() ==> (#[trigger] words(s)[i]).len() > 0 && forall|j: int|
                0 <= j < words(s)[i].len() ==> !is_space(#[trigger] words(s)[i][j]),
    decreases s.len(),
{
    let gap = run_length(s, space());
    let rest = s.skip(gap);
    let len = run_length(rest, ink());
    if 0 <= gap < s.len() && 0 < len <= rest.len() {
        lemma_run_length_is_maximal(rest, ink());
        lemma_words_are_ink(rest.skip(len));
        let ws = words(s);
        let later = words(rest.skip(len));
        assert forall|i: int| 0 <= i < ws.len() implies (#[trigger] ws[i]).len() > 0 && forall|
            j: int,
        |
            0 <= j < ws[i].len() ==> !is_space(#[trigger] ws[i][j]) by {
            if i == 0 {
                assert forall|j: int| 0 <= j < ws[0].len() implies !is_space(
                    #[trigger] ws[0][j],
                ) by {
                    assert(ink()(rest[j]));
                }
            } else {
                assert(ws[i] == later[i - 1]);
            }
        }
    }
}

/// `s` without the white space at its start and at its end.
pub open spec fn trimmed(s: Seq<char>) -> Seq<char> {
    let rest = s.skip(run_length(s, space()));
    rest.take(rest.len() - run_length(rest.reverse(), space()))
}

/// A copy of `chars` without the white space at its start and at its end.
pub fn trim(chars: &Vec<char>) -> (inner: Vec<char>)
    ensures
        inner@ == trimmed(chars@),
{
    let n = chars.len();
    let mut start: usize = 0;
    while start < n && is_whitespace(chars[start])
        invariant
            start <= n == chars.len(),
            forall|j: int| 0 <= j < start ==> space()(#[trigger] chars@[j]),
        decreases n - start,
    {
        start += 1;
    }
    let mut end: usize = n;
    while end > start && is_whitespace(chars[end - 1])
        invariant
            start <= end <= n == chars.len(),
            forall|j: int| end <= j < n ==> space()(#[trigger] chars@[j]),
        decreases end,
    {
        end -= 1;
    }
    proof {
        lemma_run_length_found(chars@, space(), start as int);
        let rest = chars@.skip(start as int);
        let back = rest.reverse();
        assert forall|j: int| 0 <= j < n - end implies space()(#[trigger] back[j]) by {
            assert(back[j] == chars@[n - 1 - j]);
        }
        if end > start {
            assert(back[n - end] == chars@[end - 1]);
        }
        lemma_run_length_found(back, space(), n - end);
        assert(rest.take(rest.len() - (n - end)) == chars@.subrange(start as int, end as int));
    }
    copy_range(chars, start, end)
}

/// Whether `c` is white space.
pub fn is_whitespace(c: char) -> (space: bool)
    ensures
        space == is_space(c),
{
    ('\u{9}' <= c && c <= '\u{d}') || c == ' ' || c == '\u{85}' || c == '\u{a0}' || c
        == '\u{1680}' || ('\u{2000}' <= c && c <= '\u{200a}') || c == '\u{2028}' || c
        == '\u{2029}' || c == '\u{202f}' || c == '\u{205f}' || c == '\u{3000}'
}

/// Cuts `chars` into its words.
pub fn split_words(chars: &Vec<char>) -> (pieces: Vec<Vec<char>>)
    ensures
        views(pieces@) == words(chars@),
{
    let n = chars.len();
    let mut pieces: Vec<Vec<char>> = Vec::new();
    let mut i: usize = 0;
    assert(chars@.skip(0) == chars@);
    assert(views(pieces@) + words(chars@.skip(0)) == words(chars@));
    while i < n
        invariant
            i <= n == chars.len(),
            views(pieces@) + words(chars@.skip(i as int)) == words(chars@),
        decreases n - i,
    {
        let ghost from = i;
        let ghost s = chars@.skip(from as int);
        while i < n && is_whitespace(chars[i])
            invariant
                from <= i <= n == chars.len(),
                forall|j: int| from <= j < i ==> is_space(chars@[j]),
            decreases n - i,
        {
            i += 1;
        }
        proof {
            assert forall|j: int| 0 <= j < i - from implies space()(#[trigger] s[j]) by {
                assert(s[j] == chars@[from + j]);
            }
            lemma_run_length_found(s, space(), i - from);
            assert(s.skip(i - from) == chars@.skip(i as int));
        }
        if i == n {
            assert(words(s) == Seq::<Seq<char>>::empty());
            assert(chars@.skip(n as int).len() == 0);
        } else {
            let start = i;
            while i < n && !is_whitespace(chars[i])
                invariant
                    start <= i <= n == chars.len(),
                    forall|j: int| start <= j < i ==> !is_space(chars@[j]),
                decreases n - i,
            {
                i += 1;
            }
            let piece = copy_range(chars, start, i);
            proof {
                let rest = chars@.skip(start as int);
                assert forall|j: int| 0 <= j < i - start implies ink()(#[trigger] rest[j]) by {
                    assert(rest[j] == chars@[start + j]);
                }
                lemma_run_length_found(rest, ink(), i - start);
                assert(rest.take(i - start) == piece@);
                assert(rest.skip(i - start) == chars@.skip(i as int));
                assert(words(s) == seq![piece@] + words(chars@.skip(i as int)));
                assert(views(pieces@.push(piece)) == views(pieces@) + seq![piece@]);
            }
            pieces.push(piece);
        }
    }
    assert(chars@.skip(n as int).len() == 0);
    assert(views(pieces@) + Seq::<Seq<char>>::empty() == views(pieces@));
    pieces
}

} // verus!
