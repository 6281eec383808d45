//! The words of a piece of prose: cleaned of punctuation, counted, measured,
//! put in capitals and sifted by length.
//!
//! Which characters are letters or digits, and what the capitals of a text
//! are, is for the standard library to say. Both are taken as given here and
//! go by the names [`is_alphanumeric`] and [`uppercase`].

use vstd::prelude::*;
use crate::runs::{run_length, lemma_run_length_found};
use crate::text::chars::{byte_len, chars_of, same_text, string_of, texts, views};
use crate::text::words::{split_words, words};

verus! {

/// Whether `c` is a letter or a digit of any script.
pub uninterp spec fn is_alphanumeric(c: char) -> bool;

/// `s` in capitals.
pub uninterp spec fn uppercase(s: Seq<char>) -> Seq<char>;

/// `char::is_alphanumeric`: whether the character is alphabetic or numeric
/// by its Unicode properties. The answer depends on the character alone and
/// is known here only by its name.
#[verifier::external_body]
fn alphanumeric(c: char) -> (yes: bool)
    ensures
        yes == is_alphanumeric(c),
{
    c.is_alphanumeric()
}

/// `str::to_uppercase`: the upper-case equivalent of the text as a new
/// string, by the Unicode case mapping. The result depends on the text alone
/// and is known here only by its name.
#[verifier::external_body]
fn to_uppercase(s: &str) -> (upper: String)
    ensures
        upper@ == uppercase(s@),
{
    s.to_uppercase()
}

/// Whether `c` belongs to a word: a letter, a digit or a hyphen.
pub open spec fn is_word_char(c: char) -> bool {
    is_alphanumeric(c) || c == '-'
}

/// The mark of a character that does not belong to a word.
pub open spec fn unmarked() -> spec_fn((char, bool)) -> bool {
    |pair: (char, bool)| !pair.1
}

/// The characters of a marked text, without their marks.
pub open spec fn unmark(marked: Seq<(char, bool)>) -> Seq<char> {
    Seq::new(marked.len(), |i: int| marked[i].0)
}

/// The characters of a marked text from its first marked character to its
/// last, both included. Nothing where no character is marked.
pub open spec fn marked_core(marked: Seq<(char, bool)>) -> Seq<char> {
    let rest = marked.skip(run_length(marked, unmarked()));
    unmark(rest.take(rest.len() - run_length(rest.reverse(), unmarked())))
}

/// Each character of `s` with the mark of belonging to a word.
pub open spec fn with_word_marks(s: Seq<char>) -> Seq<(char, bool)> {
    Seq::new(s.len(), |i: int| (s[i], is_word_char(s[i])))
}

/// A word without the punctuation at its start and at its end: what lies
/// between its first and its last letter, digit or hyphen.
pub open spec fn cleaned(word: Seq<char>) -> Seq<char> {
    marked_core(with_word_marks(word))
}

/// The words of a text, each one cleaned. A word that is all punctuation
/// stays in the list as an empty word.
pub open spec fn clean_words(text: Seq<char>) -> Seq<Seq<char>> {
    Seq::new(words(text).len(), |i: int| cleaned(words(text)[i]))
}

/// The characters of `marked` from its first marked character to its last.
pub fn core_of_marked(marked: &Vec<(char, bool)>) -> (core: Vec<char>)
    ensures
        core@ == marked_core(marked@),
{
    let n = marked.len();
    let mut start: usize = 0;
    while start < n && !marked[start].1
        invariant
            start <= n == marked.len(),
            forall|j: int| 0 <= j < start ==> unmarked()(#[trigger] marked@[j]),
        decreases n - start,
    {
        start += 1;
    }
    let mut end: usize = n;
    while end > start && !marked[end - 1].1
        invariant
            start <= end <= n == marked.len(),
            forall|j: int| end <= j < n ==> unmarked()(#[trigger] marked@[j]),
        decreases end,
    {
        end -= 1;
    }
    let ghost rest = marked@.skip(start as int);
    let ghost kept = rest.take(rest.len() - (n - end));
    proof {
        lemma_run_length_found(marked@, unmarked(), start as int);
        let back = rest.reverse();
        assert forall|j: int| 0 <= j < n - end implies unmarked()(#[trigger] back[j]) by {
            assert(back[j] == marked@[n - 1 - j]);
        }
        if end > start {
            assert(back[n - end] == marked@[end - 1]);
        }
        lemma_run_length_found(back, unmarked(), n - end);
        assert(kept == marked@.subrange(start as int, end as int));
    }
    let mut core: Vec<char> = Vec::new();
    let mut i: usize = start;
    while i < end
        invariant
            start <= i <= end <= marked.len(),
            core@ == unmark(marked@.subrange(start as int, i as int)),
        decreases end - i,
    {
        core.push(marked[i].0);
        assert(marked@.subrange(start as int, i + 1) == marked@.subrange(
            start as int,
            i as int,
        ).push(marked@[i as int]));
        i += 1;
    }
    core
}

/// Each character of `chars` with the mark of belonging to a word.
pub fn mark_word_chars(chars: &Vec<char>) -> (marked: Vec<(char, bool)>)
    ensures
        marked@ == with_word_marks(chars@),
{
    let mut marked: Vec<(char, bool)> = Vec::new();
    let mut i: usize = 0;
    while i < chars.len()
        invariant
            i <= chars.len(),
            marked@ == with_word_marks(chars@.take(i as int)),
        decreases chars.len() - i,
    {
        let c = chars[i];
        marked.push((c, alphanumeric(c) || c == '-'));
        assert(chars@.take(i + 1) == chars@.take(i as int).push(c));
        i += 1;
    }
    assert(chars@.take(i as int) == chars@);
    marked
}

/// A word without the punctuation at its start and at its end.
pub fn clean_word(chars: &Vec<char>) -> (word: Vec<char>)
    ensures
        word@ == cleaned(chars@),
{
    core_of_marked(&mark_word_chars(chars))
}

/// The words of `text`, each one cleaned.
pub fn split_into_words(text: &str) -> (found: Vec<String>)
    ensures
        texts(found@) == clean_words(text@),
{
    let chars = chars_of(text);
    let pieces = split_words(&chars);
    let mut found: Vec<String> = Vec::new();
    let mut i: usize = 0;
    while i < pieces.len()
        invariant
            i <= pieces.len(),
            views(pieces@) == words(text@),
            texts(found@) == clean_words(text@).take(i as int),
        decreases pieces.len() - i,
    {
        let word = string_of(&clean_word(&pieces[i]));
        assert(pieces[i as int]@ == words(text@)[i as int]);
        assert(texts(found@.push(word)) == texts(found@).push(word@));
        found.push(word);
        i += 1;
    }
    assert(clean_words(text@).take(i as int) == clean_words(text@));
    found
}

/// The property of being the word `word`.
pub open spec fn same_as(word: Seq<char>) -> spec_fn(Seq<char>) -> bool {
    |other: Seq<char>| other == word
}

/// How often `word` occurs among `words`.
pub open spec fn occurrences(words: Seq<Seq<char>>, word: Seq<char>) -> nat {
    words.filter(same_as(word)).len()
}

/// The different words among `words`, each once, in the order in which they
/// first occur.
pub open spec fn distinct(words: Seq<Seq<char>>) -> Seq<Seq<char>>
    decreases words.len(),
{
    if words.len() == 0 {
        Seq::empty()
    } else {
        let before = distinct(words.drop_last());
        if before.contains(words.last()) {
            before
        } else {
            before.push(words.last())
        }
    }
}

/// A word and the number of times it occurs.
#[derive(Debug, PartialEq, Eq)]
pub struct WordCount {
    pub word: String,
    pub count: usize,
}

/// The words of a tally, entry by entry.
pub open spec fn tally_words(tally: Seq<WordCount>) -> Seq<Seq<char>> {
    Seq::new(tally.len(), |i: int| tally[i].word@)
}

/// A word is among the different words exactly when it is among the words,
/// and no word is among the different words twice.
pub proof fn lemma_distinct(words: Seq<Seq<char>>)
    ensures
        forall|word: Seq<char>| #[trigger] distinct(words).contains(word) ==> words.contains(word),
        forall|word: Seq<char>| #[trigger] words.contains(word) ==> distinct(words).contains(word),
        distinct(words).no_duplicates(),
    decreases words.len(),
{
    if words.len() > 0 {
        let before = words.drop_last();
        let last = words.last();
        let found = distinct(before);
        let all = distinct(words);
        lemma_distinct(before);
        assert forall|word: Seq<char>| #[trigger] all.contains(word) implies words.contains(
            word,
        ) by {
            let j = choose|j: int| 0 <= j < all.len() && all[j] == word;
            if j < found.len() {
                assert(found[j] == word);
                assert(found.contains(word));
                assert(before.contains(word));
                let k = choose|k: int| 0 <= k < before.len() && before[k] == word;
                assert(words[k] == word);
            } else {
                assert(words[words.len() - 1] == word);
            }
        }
        assert forall|word: Seq<char>| #[trigger] words.contains(word) implies all.contains(
            word,
        ) by {
            let k = choose|k: int| 0 <= k < words.len() && words[k] == word;
            if k < before.len() {
                assert(before[k] == word);
                assert(before.contains(word));
                assert(found.contains(word));
                let j = choose|j: int| 0 <= j < found.len() && found[j] == word;
                assert(all[j] == word);
            } else if found.contains(last) {
            } else {
                assert(all[found.len() as int] == word);
            }
        }
        assert forall|i: int, j: int| 0 <= i < all.len() && 0 <= j < all.len() && i != j implies all[i]
            != all[j] by {
            if i < found.len() && j < found.len() {
                assert(found[i] != found[j]);
            } else if i < found.len() {
                assert(found.contains(found[i]));
            } else {
                assert(found.contains(found[j]));
            }
        }
    }
}

/// A word that is not among the words occurs zero times.
pub proof fn lemma_absent_word(words: Seq<Seq<char>>, word: Seq<char>)
    requires
        !words.contains(word),
    ensures
        occurrences(words, word) == 0,
    decreases words.len(),
{
    reveal(Seq::filter);
    if words.len() > 0 {
        let before = words.drop_last();
        assert(words[words.len() - 1] != word);
        assert forall|k: int| 0 <= k < before.len() implies before[k] != word by {
            assert(words[k] == before[k]);
        }
        lemma_absent_word(before, word);
    }
}

/// One word more raises the count of that word by one and leaves the counts
/// of all other words as they are.
pub proof fn lemma_occurrences_next(words: Seq<Seq<char>>, i: int, word: Seq<char>)
    requires
        0 <= i < words.len(),
    ensures
        occurrences(words.take(i + 1), word) == occurrences(words.take(i), word) + if words[i]
            == word {
            1nat
        } else {
            0nat
        },
        occurrences(words.take(i), word) <= i,
{
    reveal(Seq::filter);
    assert(words.take(i + 1).drop_last() == words.take(i));
    words.take(i).lemma_filter_len(same_as(word));
}

/// The index of `word` among the words of `tally`, if it is there.
fn find_word(tally: &Vec<WordCount>, word: &str) -> (found: Option<usize>)
    ensures
        match found {
            Some(j) => j < tally.len() && tally[j as int].word@ == word@,
            None => !tally_words(tally@).contains(word@),
        },
{
    let mut j: usize = 0;
    while j < tally.len()
        invariant
            j <= tally.len(),
            forall|k: int| 0 <= k < j ==> tally[k].word@ != word@,
        decreases tally.len() - j,
    {
        if same_text(tally[j].word.as_str(), word) {
            return Some(j);
        }
        j += 1;
    }
    None
}

/// How often each of the different words occurs, in the order in which the
/// words first occur.
pub fn count_words(words: &Vec<String>) -> (tally: Vec<WordCount>)
    ensures
        tally_words(tally@) == distinct(texts(words@)),
        forall|j: int|
            0 <= j < tally.len() ==> (#[trigger] tally[j]).count == occurrences(
                texts(words@),
                tally[j].word@,
            ),
{
    let ghost all = texts(words@);
    let mut tally: Vec<WordCount> = Vec::new();
    let mut i: usize = 0;
    assert(tally_words(tally@) == distinct(all.take(0)));
    while i < words.len()
        invariant
            i <= words.len(),
            all == texts(words@),
            tally_words(tally@) == distinct(all.take(i as int)),
            forall|j: int|
                0 <= j < tally.len() ==> (#[trigger] tally[j]).count == occurrences(
                    all.take(i as int),
                    tally[j].word@,
                ),
        decreases words.len() - i,
    {
        let ghost seen = all.take(i as int);
        let ghost before = tally@;
        let word = &words[i];
        proof {
            assert(all.take(i + 1).drop_last() == seen);
            assert(all.take(i + 1).last() == word@);
            lemma_distinct(seen);
            assert forall|j: int| 0 <= j < tally.len() implies occurrences(
                all.take(i + 1),
                #[trigger] tally[j].word@,
            ) == occurrences(seen, tally[j].word@) + if word@ == tally[j].word@ {
                1nat
            } else {
                0nat
            } && occurrences(seen, tally[j].word@) <= i by {
                lemma_occurrences_next(all, i as int, tally[j].word@);
            }
        }
        match find_word(&tally, word.as_str()) {
            Some(k) => {
                let entry = WordCount { word: word.clone(), count: tally[k].count + 1 };
                tally.set(k, entry);
                proof {
                    assert(tally_words(before)[k as int] == word@);
                    assert(tally_words(before).contains(word@));
                    assert(tally_words(tally@) == tally_words(before));
                    assert forall|j: int| 0 <= j < tally.len() implies (#[trigger] tally[j]).count
                        == occurrences(all.take(i + 1), tally[j].word@) by {
                        if j != k {
                            assert(tally[j] == before[j]);
                            assert(tally_words(before)[j] == before[j].word@);
                            assert(tally_words(before)[k as int] == before[k as int].word@);
                            assert(before[j].word@ != word@);
                        }
                    }
                }
            },
            None => {
                proof {
                    lemma_absent_word(seen, word@);
                    lemma_occurrences_next(all, i as int, word@);
                    assert(tally_words(before.push(WordCount { word: *word, count: 1 }))
                        == tally_words(before).push(word@));
                }
                tally.push(WordCount { word: word.clone(), count: 1 });
                proof {
                    assert forall|j: int| 0 <= j < tally.len() implies (#[trigger] tally[j]).count
                        == occurrences(all.take(i + 1), tally[j].word@) by {
                        if j < before.len() {
                            assert(tally[j] == before[j]);
                            assert(tally_words(before)[j] == before[j].word@);
                            assert(tally_words(before).contains(before[j].word@));
                        }
                    }
                }
            },
        }
        i += 1;
    }
    assert(all.take(i as int) == all);
    tally
}

/// Whether the word at `k` is the longest of `words`, measured in bytes, and
/// the last of those that are equally long.
pub open spec fn is_last_longest(words: Seq<Seq<char>>, k: int) -> bool {
    &&& 0 <= k < words.len()
    &&& forall|j: int| 0 <= j < words.len() ==> byte_len(#[trigger] words[j]) <= byte_len(words[k])
    &&& forall|j: int| k < j < words.len() ==> byte_len(#[trigger] words[j]) < byte_len(words[k])
}

/// The longest of `words`, measured in bytes; of several that are equally
/// long the last one. The empty word where there are no words.
pub fn longest_word(words: &Vec<String>) -> (longest: String)
    ensures
        words.len() == 0 ==> longest@ == Seq::<char>::empty(),
        words.len() > 0 ==> exists|k: int|
            is_last_longest(texts(words@), k) && longest@ == #[trigger] texts(words@)[k],
{
    if words.len() == 0 {
        return String::new();
    }
    let mut best: usize = 0;
    let mut i: usize = 1;
    while i < words.len()
        invariant
            0 <= best < i <= words.len(),
            is_last_longest(texts(words@).take(i as int), best as int),
        decreases words.len() - i,
    {
        let ghost seen = texts(words@).take(i as int);
        let ghost next = texts(words@).take(i + 1);
        if words[i].as_str().as_bytes().len() >= words[best].as_str().as_bytes().len() {
            assert forall|j: int| 0 <= j < next.len() implies byte_len(#[trigger] next[j])
                <= byte_len(next[i as int]) by {
                if j < i {
                    assert(seen[j] == next[j]);
                }
            }
            best = i;
        } else {
            assert forall|j: int| 0 <= j < next.len() implies byte_len(#[trigger] next[j])
                <= byte_len(next[best as int]) by {
                if j < i {
                    assert(seen[j] == next[j]);
                }
            }
            assert forall|j: int| best < j < next.len() implies byte_len(#[trigger] next[j])
                < byte_len(next[best as int]) by {
                if j < i {
                    assert(seen[j] == next[j]);
                }
            }
        }
        i += 1;
    }
    let longest = words[best].clone();
    proof {
        assert(texts(words@).take(i as int) == texts(words@));
        assert(is_last_longest(texts(words@), best as int));
        assert(longest@ == texts(words@)[best as int]);
    }
    longest
}

/// Each of `words` in capitals.
pub fn uppercase_words(words: &Vec<String>) -> (upper: Vec<String>)
    ensures
        upper.len() == words.len(),
        forall|i: int| 0 <= i < words.len() ==> (#[trigger] upper[i])@ == uppercase(words[i]@),
{
    let mut upper: Vec<String> = Vec::new();
    let mut i: usize = 0;
    while i < words.len()
        invariant
            i <= words.len(),
            upper.len() == i,
            forall|j: int| 0 <= j < i ==> (#[trigger] upper[j])@ == uppercase(words[j]@),
        decreases words.len() - i,
    {
        upper.push(to_uppercase(words[i].as_str()));
        i += 1;
    }
    upper
}

/// The property of taking at least `min` bytes.
pub open spec fn at_least(min: usize) -> spec_fn(Seq<char>) -> bool {
    |word: Seq<char>| byte_len(word) >= min
}

/// Those of `words` that take at least `min` bytes, in their order.
pub fn words_of_length(words: &Vec<String>, min: usize) -> (kept: Vec<String>)
    ensures
        texts(kept@) == texts(words@).filter(at_least(min)),
{
    let ghost all = texts(words@);
    let mut kept: Vec<String> = Vec::new();
    let mut i: usize = 0;
    assert(all.take(0).filter(at_least(min)) == Seq::<Seq<char>>::empty()) by {
        reveal(Seq::filter);
    }
    while i < words.len()
        invariant
            i <= words.len(),
            all == texts(words@),
            texts(kept@) == all.take(i as int).filter(at_least(min)),
        decreases words.len() - i,
    {
        proof {
            reveal(Seq::filter);
            assert(all.take(i + 1).drop_last() == all.take(i as int));
            assert(all.take(i + 1).last() == words[i as int]@);
        }
        if words[i].as_str().as_bytes().len() >= min {
            let word = words[i].clone();
            assert(texts(kept@.push(word)) == texts(kept@).push(word@));
            kept.push(word);
        }
        i += 1;
    }
    assert(all.take(i as int) == all);
    kept
}

} // verus!
