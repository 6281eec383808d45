use workbook::greeting::GreetingState;
use workbook::numbers::{add, is_prime};
use workbook::ownership::{calculate_length, get_string, longest};
use workbook::slices::{extract_positive, first_word, middle_elements, sum_slice};

fn has_no_divisor(n: u32) -> bool {
    n >= 2 && (2..n).all(|d| n % d != 0)
}

#[test]
fn sums_of_two_numbers() {
    assert_eq!(add(10, 25), 35);
    assert_eq!(add(42, 58), 100);
    assert_eq!(add(-5, 5), 0);
    assert_eq!(add(i32::MAX, 0), i32::MAX);
    assert_eq!(add(i32::MIN, i32::MAX), -1);
}

#[test]
fn small_primes() {
    assert!(is_prime(7));
    assert!(!is_prime(12));
    assert!(!is_prime(0));
    assert!(!is_prime(1));
    assert!(is_prime(2));
    assert!(is_prime(3));
    assert!(!is_prime(4));
    assert!(is_prime(5));
    assert!(!is_prime(25));
    assert!(!is_prime(49));
    for n in 0..5000u32 {
        assert_eq!(is_prime(n), has_no_divisor(n), "{}", n);
    }
}

#[test]
fn primes_at_the_top_of_the_range() {
    assert!(is_prime(4294967291));
    assert!(!is_prime(4294967295));
    assert!(!is_prime(4294967293));
    assert!(is_prime(2147483647));
    assert!(!is_prime(4294836225));
    assert!(!is_prime(65537 * 65521));
    assert!(is_prime(65537));
}

#[test]
fn the_first_word_ends_at_the_first_blank() {
    assert_eq!(first_word("Hello Rust slices world"), "Hello");
    assert_eq!(first_word(""), "");
    assert_eq!(first_word("single"), "single");
    assert_eq!(first_word(" leading"), "");
    assert_eq!(first_word("tab\tis no blank"), "tab\tis");
    assert_eq!(first_word("caf\u{e9}s ouverts"), "caf\u{e9}s");
}

#[test]
fn sums_of_slices() {
    let numbers = [1, 2, 3, 4, 5];
    assert_eq!(sum_slice(&numbers), 15);
    assert_eq!(sum_slice(&numbers[0..3]), 6);
    assert_eq!(sum_slice(&[]), 0);
    assert_eq!(sum_slice(&[i32::MAX, -1, i32::MIN + 2]), 0);
    assert_eq!(sum_slice(&[-7]), -7);
}

#[test]
fn the_middle_of_a_slice() {
    assert_eq!(middle_elements(&[1, 2, 3, 4, 5]), &[3]);
    assert_eq!(middle_elements(&[1, 2, 3, 4]), &[2, 3]);
    assert_eq!(middle_elements(&[7]), &[7]);
    assert_eq!(middle_elements(&[7, 8]), &[7, 8]);
    assert_eq!(middle_elements::<i32>(&[]), &[] as &[i32]);
    assert_eq!(middle_elements(&["a", "b", "c"]), &["b"]);
}

#[test]
fn the_first_run_of_positive_numbers() {
    assert_eq!(extract_positive(&[3, 5, 2, -1, -5, 8, 10, -3]), &[3, 5, 2]);
    assert_eq!(extract_positive(&[-2, -5, 3, 4, 5, -1, 7]), &[3, 4, 5]);
    assert_eq!(extract_positive(&[]), &[] as &[i32]);
    assert_eq!(extract_positive(&[-1, 0, -3]), &[] as &[i32]);
    assert_eq!(extract_positive(&[0, 0, 9]), &[9]);
    assert_eq!(extract_positive(&[1, 2, 3]), &[1, 2, 3]);
    assert_eq!(extract_positive(&[1, 0, 2]), &[1]);
}

#[test]
fn strings_are_handed_out_and_measured() {
    assert_eq!(get_string(), "I am a dangling reference");
    assert_eq!(longest("long string is long", "short"), "long string is long");
    assert_eq!(longest("short", "long string is long"), "long string is long");
    assert_eq!(longest("same", "size"), "size");
    assert_eq!(longest("\u{e9}\u{e9}", "abc"), "\u{e9}\u{e9}");
    assert_eq!(calculate_length("Rust Programming".to_string()), 16);
    assert_eq!(calculate_length(String::new()), 0);
    assert_eq!(calculate_length("\u{e9}".to_string()), 2);
}

#[test]
fn a_greeting_starts_with_hello_world() {
    let state = GreetingState::new();
    assert_eq!(state.get_greeting(), "Hello, World!");
    assert_eq!(state.get_greeting_history(), vec!["Hello, World!".to_string()]);
}

#[test]
fn a_greeting_is_replaced_and_remembered() {
    let mut state = GreetingState::new();
    assert_eq!(state.update_greeting("Hi".to_string()), "Hi");
    assert_eq!(state.update_greeting("Hey".to_string()), "Hey");
    assert_eq!(state.get_greeting(), "Hey");
    assert_eq!(
        state.get_greeting_history(),
        vec!["Hello, World!".to_string(), "Hi".to_string(), "Hey".to_string()]
    );
    state.init();
    assert_eq!(state.get_greeting(), "Hello, World!");
    assert_eq!(state.get_greeting_history(), vec!["Hello, World!".to_string()]);
}
