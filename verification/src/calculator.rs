//! FizzBuzz, and the questions that a calculator with a menu asks.

use vstd::prelude::*;
use vstd::string::StringExecFns;
use crate::text::chars::{ascii_lowered, chars_of, lowered, spells};
use crate::text::decimal::{decimal, parse_u32, read_u32, write_u32};
use crate::text::words::{trim, trimmed};

verus! {

/// What is said for `i` in a round of FizzBuzz: `Fizz` for a multiple of 3,
/// `Buzz` for a multiple of 5, both together for a multiple of both, and
/// the number itself for any other.
pub open spec fn fizz_buzz_text(i: u32) -> Seq<char> {
    if i % 3 == 0 && i % 5 == 0 {
        "FizzBuzz"@
    } else if i % 3 == 0 {
        "Fizz"@
    } else if i % 5 == 0 {
        "Buzz"@
    } else {
        decimal(i as nat)
    }
}

/// What is said for `i` in a round of FizzBuzz.
pub fn fizz_buzz(i: u32) -> (text: String)
    ensures
        text@ == fizz_buzz_text(i),
{
    if i % 3 == 0 && i % 5 == 0 {
        String::from_str("FizzBuzz")
    } else if i % 3 == 0 {
        String::from_str("Fizz")
    } else if i % 5 == 0 {
        String::from_str("Buzz")
    } else {
        write_u32(i)
    }
}

/// One of the four operations of the calculator.
#[derive(Debug, Clone, Copy, PartialEq, Eq, Structural)]
pub enum Operation {
    Add,
    Subtract,
    Multiply,
    Divide,
}

/// What a number chosen from the menu means.
#[derive(Debug, Clone, Copy, PartialEq, Eq, Structural)]
pub enum MenuChoice {
    /// One of the operations, 1 to 4.
    Operate(Operation),
    /// The way out, 5.
    Exit,
    /// A number that the menu does not offer.
    Invalid,
}

/// The meaning of a number chosen from the menu.
pub open spec fn choice_of(number: u32) -> MenuChoice {
    if number == 1 {
        MenuChoice::Operate(Operation::Add)
    } else if number == 2 {
        MenuChoice::Operate(Operation::Subtract)
    } else if number == 3 {
        MenuChoice::Operate(Operation::Multiply)
    } else if number == 4 {
        MenuChoice::Operate(Operation::Divide)
    } else if number == 5 {
        MenuChoice::Exit
    } else {
        MenuChoice::Invalid
    }
}

/// The choice that a line of input stands for: the line without the white
/// space around it must be a number. Any other line stands for no choice.
pub open spec fn read_choice(line: Seq<char>) -> Option<MenuChoice> {
    match parse_u32(trimmed(line)) {
        Some(number) => Some(choice_of(number)),
        None => None,
    }
}

/// The choice that a line of input stands for, if it stands for one.
pub fn menu_choice(line: &str) -> (choice: Option<MenuChoice>)
    ensures
        choice == read_choice(line@),
{
    let chars = chars_of(line);
    match read_u32(&trim(&chars)) {
        Some(1) => Some(MenuChoice::Operate(Operation::Add)),
        Some(2) => Some(MenuChoice::Operate(Operation::Subtract)),
        Some(3) => Some(MenuChoice::Operate(Operation::Multiply)),
        Some(4) => Some(MenuChoice::Operate(Operation::Divide)),
        Some(5) => Some(MenuChoice::Exit),
        Some(_) => Some(MenuChoice::Invalid),
        None => None,
    }
}

/// Whether a line of input says yes to another calculation: it is the
/// letter `y`, in either case, with nothing but white space around it.
pub open spec fn says_yes(line: Seq<char>) -> bool {
    ascii_lowered(trimmed(line)) == "y"@
}

/// Whether a line of input says yes to another calculation.
pub fn wants_another(line: &str) -> (yes: bool)
    ensures
        yes == says_yes(line@),
{
    let chars = chars_of(line);
    spells(&lowered(&trim(&chars)), "y")
}

} // verus!
