//! Parts of strings and slices: a first word, a sum, the middle, and the
//! first run of positive numbers.

use vstd::prelude::*;
use vstd::string::StrSliceExecFns;
use crate::runs::{first_index, other_than, run_length, lemma_run_length_found};
use crate::text::chars::chars_of;

verus! {

/// The first word of `s`: everything before its first blank, or all of `s`
/// where it has no blank.
pub fn first_word(s: &str) -> (word: &str)
    ensures
        word@ == s@.take(first_index(s@, ' ')),
{
    let chars = chars_of(s);
    let mut i: usize = 0;
    while i < chars.len() && chars[i] != ' '
        invariant
            i <= chars.len(),
            chars@ == s@,
            forall|j: int| 0 <= j < i ==> other_than(' ')(#[trigger] s@[j]),
        decreases chars.len() - i,
    {
        i += 1;
    }
    proof {
        lemma_run_length_found(s@, other_than(' '), i as int);
    }
    s.substring_char(0, i)
}

/// The sum of the first `k` numbers of `s`.
pub open spec fn partial_sum(s: Seq<i32>, k: int) -> int
    decreases k,
{
    if k <= 0 {
        0
    } else {
        partial_sum(s, k - 1) + s[k - 1]
    }
}

/// The sum of all numbers of `s`.
pub open spec fn sum(s: Seq<i32>) -> int {
    partial_sum(s, s.len() as int)
}

/// The sum of `numbers`, added up from the first to the last. On the way no
/// partial sum may leave the range of the type.
pub fn sum_slice(numbers: &[i32]) -> (total: i32)
    requires
        forall|k: int|
            0 <= k <= numbers@.len() ==> i32::MIN <= #[trigger] partial_sum(numbers@, k)
                <= i32::MAX,
    ensures
        total == sum(numbers@),
{
    let mut total: i32 = 0;
    let mut i: usize = 0;
    while i < numbers.len()
        invariant
            i <= numbers.len(),
            total == partial_sum(numbers@, i as int),
            forall|k: int|
                0 <= k <= numbers@.len() ==> i32::MIN <= #[trigger] partial_sum(numbers@, k)
                    <= i32::MAX,
        decreases numbers.len() - i,
    {
        assert(partial_sum(numbers@, i + 1) == partial_sum(numbers@, i as int) + numbers@[
            i as int
        ]);
        total += numbers[i];
        i += 1;
    }
    total
}

/// Where the middle of a sequence of `len` items starts.
pub open spec fn middle_start(len: int) -> int {
    if len == 0 {
        0
    } else if len % 2 == 1 {
        len / 2
    } else {
        len / 2 - 1
    }
}

/// How many items the middle of a sequence of `len` items has: none of
/// none, one of an odd number, two of an even number.
pub open spec fn middle_len(len: int) -> int {
    if len == 0 {
        0
    } else if len % 2 == 1 {
        1
    } else {
        2
    }
}

/// The middle of a sequence.
pub open spec fn middle<T>(s: Seq<T>) -> Seq<T> {
    s.subrange(
        middle_start(s.len() as int),
        middle_start(s.len() as int) + middle_len(s.len() as int),
    )
}

/// As many items lie before the middle as after it.
pub proof fn lemma_middle_is_centred(len: int)
    requires
        len >= 0,
    ensures
        0 <= middle_start(len),
        middle_start(len) + middle_len(len) <= len,
        middle_start(len) == len - (middle_start(len) + middle_len(len)),
{
}

/// The middle item of a slice of odd length, the two middle items of one of
/// even length, nothing of an empty one.
pub fn middle_elements<T>(slice: &[T]) -> (mid: &[T])
    ensures
        mid@ == middle(slice@),
{
    let len = slice.len();
    if len == 0 {
        return &slice[0..0];
    }
    if len % 2 == 1 {
        let mid = len / 2;
        &slice[mid..mid + 1]
    } else {
        let mid = len / 2 - 1;
        &slice[mid..mid + 2]
    }
}

/// The property of being positive.
pub open spec fn positive() -> spec_fn(i32) -> bool {
    |x: i32| x > 0
}

/// The property of being zero or negative.
pub open spec fn not_positive() -> spec_fn(i32) -> bool {
    |x: i32| x <= 0
}

/// Where the first positive number of `s` stands, or the length of `s`
/// where it has none.
pub open spec fn first_positive(s: Seq<i32>) -> int {
    run_length(s, not_positive())
}

/// The first run of positive numbers in `s`: from its first positive number
/// up to the next number that is not positive, or to the end. Empty where
/// `s` has no positive number.
pub open spec fn first_positive_run(s: Seq<i32>) -> Seq<i32> {
    let rest = s.skip(first_positive(s));
    rest.take(run_length(rest, positive()))
}

/// The first run of positive numbers in `numbers`.
pub fn extract_positive(numbers: &[i32]) -> (run: &[i32])
    ensures
        run@ == first_positive_run(numbers@),
{
    let len = numbers.len();
    let mut start: usize = 0;
    while start < len && numbers[start] <= 0
        invariant
            start <= len == numbers@.len(),
            forall|j: int| 0 <= j < start ==> not_positive()(#[trigger] numbers@[j]),
        decreases len - start,
    {
        start += 1;
    }
    let mut end: usize = start;
    while end < len && numbers[end] > 0
        invariant
            start <= end <= len == numbers@.len(),
            forall|j: int| start <= j < end ==> positive()(#[trigger] numbers@[j]),
        decreases len - end,
    {
        end += 1;
    }
    proof {
        lemma_run_length_found(numbers@, not_positive(), start as int);
        let rest = numbers@.skip(start as int);
        assert forall|j: int| 0 <= j < end - start implies positive()(#[trigger] rest[j]) by {
            assert(rest[j] == numbers@[start + j]);
        }
        lemma_run_length_found(rest, positive(), end - start);
        assert(rest.take(end - start) == numbers@.subrange(start as int, end as int));
    }
    &numbers[start..end]
}

} // verus!
