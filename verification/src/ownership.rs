//! Strings that are handed over, borrowed and measured.

use vstd::prelude::*;
use vstd::string::StringExecFns;
use crate::text::chars::byte_len;

verus! {

/// The text that [`get_string`] hands out.
pub open spec fn handed_out() -> Seq<char> {
    "I am a dangling reference"@
}

/// A string that the caller owns from now on.
pub fn get_string() -> (s: String)
    ensures
        s@ == handed_out(),
{
    String::from_str("I am a dangling reference")
}

/// The longer of two strings, measured in bytes; the second where both are
/// equally long.
pub fn longest<'a>(x: &'a str, y: &'a str) -> (longer: &'a str)
    ensures
        longer == if byte_len(x@) > byte_len(y@) {
            x
        } else {
            y
        },
{
    if x.as_bytes().len() > y.as_bytes().len() {
        x
    } else {
        y
    }
}

/// The length of a string in bytes.
pub fn calculate_length(s: String) -> (len: usize)
    ensures
        len == byte_len(s@),
{
    s.as_str().as_bytes().len()
}

} // verus!
