//! Parity test used by the comment post-action.
use vstd::prelude::*;

verus! {

/// True exactly when `number` is odd.
pub fn is_odd(number: i64) -> (r: bool)
    ensures
        r == (number % 2 != 0),
{
    number % 2 != 0
}

} // verus!
