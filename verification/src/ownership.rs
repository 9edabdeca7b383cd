//! Moving strings into and out of functions.

use vstd::prelude::*;
use vstd::utf8::encode_utf8;

verus! {

/// Makes a string and moves it out to the caller.
pub fn gives_ownership() -> (some_string: String)
    ensures
        some_string@ == "yours"@,
{
    String::from_str("yours")
}

/// Takes a string and moves the same string back out.
pub fn takes_and_gives_back(a_string: String) -> (same: String)
    ensures
        same == a_string,
{
    a_string
}

/// Hands the string back beside its length in bytes, so that the caller
/// still owns it after asking.
pub fn calculate_length(s: String) -> (pair: (String, usize))
    ensures
        pair.0 == s,
        pair.1 == encode_utf8(s@).len(),
{
    let length = s.as_str().as_bytes().len();
    (s, length)
}

} // verus!
