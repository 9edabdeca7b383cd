//! Lending strings to functions.

use vstd::prelude::*;
use vstd::utf8::encode_utf8;

verus! {

/// The length in bytes of a string that is only borrowed.
pub fn calculate_length(s: &String) -> (length: usize)
    ensures
        length == encode_utf8(s@).len(),
{
    s.as_str().as_bytes().len()
}

/// Appends `, world` to a string borrowed mutably.
pub fn change(some_string: &mut String)
    ensures
        final(some_string)@ == old(some_string)@ + ", world"@,
{
    some_string.append(", world");
}

/// Makes a string and hands out the string itself: a reference to it could
/// not outlive the call.
pub fn dangle() -> (s: String)
    ensures
        s@ == "hello"@,
{
    String::from_str("hello")
}

} // verus!
