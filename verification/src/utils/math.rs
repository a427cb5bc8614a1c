//! Integer helpers.
use vstd::prelude::*;

verus! {

/// `a / b` rounded up.
pub open spec fn spec_ceil_div(a: int, b: int) -> int {
    if a % b == 0 {
        a / b
    } else {
        a / b + 1
    }
}

/// Returns `a / b` rounded up.
pub fn ceil_div(a: u32, b: u32) -> (result: u32)
    requires
        b > 0,
    ensures
        result == spec_ceil_div(a as int, b as int),
{
    let quotient = a / b;
    if a % b == 0 {
        quotient
    } else {
        assert(quotient < u32::MAX) by (nonlinear_arith)
            requires
                quotient == a / b,
                b > 0,
                a % b != 0,
        {
            if b == 1 {
                assert(a % b == 0);
            }
        }
        quotient + 1
    }
}

} // verus!
