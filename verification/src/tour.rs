//! Two small expression-valued functions from the language tour: a
//! comparison captured as a value, and a sign function built from a
//! conditional whose branches are values.

use vstd::prelude::*;

verus! {

/// True exactly when `x` is 4.
pub fn is_four(x: i64) -> (r: bool)
    ensures
        r == (x == 4),
{
    x == 4
}

/// The sign of `x`: -1 below zero, 1 above zero, 0 at zero.
pub fn signum(x: i64) -> (r: i64)
    ensures
        x < 0 ==> r == -1,
        x == 0 ==> r == 0,
        x > 0 ==> r == 1,
{
    if x < 0 {
        -1
    } else if x > 0 {
        1
    } else {
        0
    }
}

} // verus!
