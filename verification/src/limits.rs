//! Sizes that may be too large to count, and whether they stay within a limit.

use vstd::arithmetic::overflow::CheckedU128;
use vstd::prelude::*;

verus! {

/// Whether a size is within a limit.
pub fn within(size: &CheckedU128, most: u128) -> (r: bool)
    ensures
        r == (size@ <= most),
{
    match size.to_option() {
        Some(n) => n <= most,
        None => false,
    }
}

/// A product of two factors.
pub fn product(a: u128, b: u128) -> (r: CheckedU128)
    ensures
        r@ == a * b,
{
    CheckedU128::new(a).mul_value(b)
}

} // verus!
