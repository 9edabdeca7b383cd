//! Functions with return values.

use vstd::prelude::*;

verus! {

/// The value of a function is that of the final expression of its body.
pub fn five() -> (value: i32)
    ensures
        value == 5,
{
    5
}

} // verus!
