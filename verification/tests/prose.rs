use workbook::calculator::{fizz_buzz, menu_choice, wants_another, MenuChoice, Operation};
use workbook::prose::{clean_word, core_of_marked, count_words, longest_word, mark_word_chars, split_into_words, uppercase_words, words_of_length, WordCount};
use workbook::text::chars::{chars_of, string_of};
use workbook::text::words::trim;

fn owned(words: &[&str]) -> Vec<String> {
    words.iter().map(|w| w.to_string()).collect()
}

fn paragraph() -> &'static str {
    "Rust is a multi-paradigm, general-purpose programming language. \
     Rust emphasizes performance, type safety, and concurrency. \
     Rust enforces memory safety\u{2014}that is, that all references point \
     to valid memory\u{2014}without requiring the use of a garbage collector \
     or reference counting present in other memory-safe languages."
}

fn paragraph_words() -> Vec<String> {
    paragraph()
        .split_whitespace()
        .map(|word| word.trim_matches(|c: char| !c.is_alphanumeric() && c != '-').to_string())
        .collect()
}

#[test]
fn fizz_buzz_up_to_twenty() {
    let said: Vec<String> = (1..=20).map(fizz_buzz).collect();
    assert_eq!(
        said,
        owned(&[
            "1", "2", "Fizz", "4", "Buzz", "Fizz", "7", "8", "Fizz", "Buzz", "11", "Fizz", "13", "14",
            "FizzBuzz", "16", "17", "Fizz", "19", "Buzz",
        ])
    );
    assert_eq!(fizz_buzz(0), "FizzBuzz");
    assert_eq!(fizz_buzz(4294967295), "FizzBuzz");
    assert_eq!(fizz_buzz(4294967294), "4294967294");
}

#[test]
fn menu_choices_are_numbers_with_white_space_around() {
    assert_eq!(menu_choice("1\n"), Some(MenuChoice::Operate(Operation::Add)));
    assert_eq!(menu_choice(" 2 "), Some(MenuChoice::Operate(Operation::Subtract)));
    assert_eq!(menu_choice("3"), Some(MenuChoice::Operate(Operation::Multiply)));
    assert_eq!(menu_choice("\t+4\r\n"), Some(MenuChoice::Operate(Operation::Divide)));
    assert_eq!(menu_choice("5\n"), Some(MenuChoice::Exit));
    assert_eq!(menu_choice("0\n"), Some(MenuChoice::Invalid));
    assert_eq!(menu_choice("6\n"), Some(MenuChoice::Invalid));
    assert_eq!(menu_choice("005"), Some(MenuChoice::Exit));
    assert_eq!(menu_choice("\n"), None);
    assert_eq!(menu_choice("one\n"), None);
    assert_eq!(menu_choice("1 2\n"), None);
    assert_eq!(menu_choice("-1\n"), None);
    assert_eq!(menu_choice("1.0\n"), None);
}

#[test]
fn only_y_asks_for_another_calculation() {
    assert!(wants_another("y\n"));
    assert!(wants_another("  Y  "));
    assert!(!wants_another("yes\n"));
    assert!(!wants_another("n\n"));
    assert!(!wants_another("\n"));
    assert!(!wants_another("y y"));
    for line in ["y", "Y", " y\t", "n", "", "yy", "\u{ff59}", "Yes", "\u{a0}y\u{3000}"] {
        assert_eq!(wants_another(line), line.trim().to_lowercase() == "y", "{:?}", line);
    }
}

#[test]
fn trimming_takes_white_space_off_both_ends() {
    for s in ["", " ", "a", " a", "a ", "  a b  ", "\t\n x \r\n", "\u{a0}wide\u{3000}", "in ner", " \u{2009} "] {
        assert_eq!(string_of(&trim(&chars_of(s))), s.trim(), "{:?}", s);
    }
}

#[test]
fn the_core_of_a_marked_text_runs_from_first_to_last_mark() {
    let marked = vec![('(', false), ('a', true), (',', false), ('b', true), (')', false), ('.', false)];
    assert_eq!(core_of_marked(&marked), vec!['a', ',', 'b']);
    assert_eq!(core_of_marked(&vec![('x', true)]), vec!['x']);
    assert_eq!(core_of_marked(&vec![('.', false), ('.', false)]), Vec::<char>::new());
    assert_eq!(core_of_marked(&Vec::new()), Vec::<char>::new());
    assert_eq!(core_of_marked(&vec![('a', true), ('b', false), ('c', true)]), vec!['a', 'b', 'c']);
}

#[test]
fn letters_digits_and_hyphens_are_marked() {
    assert_eq!(
        mark_word_chars(&chars_of("a-1,\u{e9} \u{2014}")),
        vec![('a', true), ('-', true), ('1', true), (',', false), ('\u{e9}', true), (' ', false), ('\u{2014}', false)]
    );
}

#[test]
fn words_are_cleaned_of_the_punctuation_around_them() {
    for word in ["language.", "multi-paradigm,", "(that)", "safety\u{2014}that", "...", "", "-", "--x--", "\u{ab}\u{e9}t\u{e9}\u{bb}", "don't!", "42."] {
        let expected = word.trim_matches(|c: char| !c.is_alphanumeric() && c != '-');
        assert_eq!(string_of(&clean_word(&chars_of(word))), expected, "{:?}", word);
    }
    assert_eq!(string_of(&clean_word(&chars_of("language."))), "language");
    assert_eq!(string_of(&clean_word(&chars_of("..."))), "");
}

#[test]
fn a_paragraph_is_cut_into_clean_words() {
    assert_eq!(split_into_words(paragraph()), paragraph_words());
    assert_eq!(split_into_words("one, two ... three!"), owned(&["one", "two", "", "three"]));
    assert!(split_into_words("  ").is_empty());
}

#[test]
fn words_are_counted_in_the_order_in_which_they_first_occur() {
    let tally = count_words(&owned(&["b", "a", "b", "c", "a", "b"]));
    assert_eq!(
        tally,
        vec![
            WordCount { word: "b".to_string(), count: 3 },
            WordCount { word: "a".to_string(), count: 2 },
            WordCount { word: "c".to_string(), count: 1 },
        ]
    );
    assert!(count_words(&Vec::new()).is_empty());
    let words = paragraph_words();
    let tally = count_words(&words);
    for entry in &tally {
        assert_eq!(entry.count, words.iter().filter(|w| **w == entry.word).count());
    }
    let total: usize = tally.iter().map(|entry| entry.count).sum();
    assert_eq!(total, words.len());
    let rust = tally.iter().find(|entry| entry.word == "Rust").unwrap();
    assert_eq!(rust.count, 3);
    assert_eq!(tally[0].word, "Rust");
}

#[test]
fn the_longest_word_is_the_last_of_the_longest() {
    assert_eq!(longest_word(&owned(&["aa", "bbb", "c", "ddd", "ee"])), "ddd");
    assert_eq!(longest_word(&owned(&["one"])), "one");
    assert_eq!(longest_word(&Vec::new()), "");
    assert_eq!(longest_word(&owned(&["abc", "\u{e9}\u{e9}"])), "\u{e9}\u{e9}");
    let words = paragraph_words();
    let expected = words.iter().max_by_key(|word| word.len()).unwrap().clone();
    assert_eq!(longest_word(&words), expected);
    assert_eq!(longest_word(&words), "memory\u{2014}without");
}

#[test]
fn words_are_put_in_capitals() {
    assert_eq!(
        uppercase_words(&owned(&["rust", "Stra\u{df}e", "\u{e9}t\u{e9}", "a-b", ""])),
        owned(&["RUST", "STRASSE", "\u{c9}T\u{c9}", "A-B", ""])
    );
    let words = paragraph_words();
    let expected: Vec<String> = words.iter().map(|word| word.to_uppercase()).collect();
    assert_eq!(uppercase_words(&words), expected);
}

#[test]
fn short_words_are_sifted_out() {
    assert_eq!(words_of_length(&owned(&["a", "four", "abc", "longer", "\u{e9}\u{e9}"]), 4), owned(&["four", "longer", "\u{e9}\u{e9}"]));
    assert_eq!(words_of_length(&owned(&["a", "bb"]), 0), owned(&["a", "bb"]));
    assert!(words_of_length(&owned(&["a", "bb"]), 3).is_empty());
    let words = paragraph_words();
    let expected: Vec<String> = words.iter().filter(|word| word.len() >= 4).cloned().collect();
    assert_eq!(words_of_length(&words, 4), expected);
}
