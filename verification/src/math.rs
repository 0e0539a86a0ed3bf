//! Integer arithmetic for programs.

use vstd::prelude::*;

verus! {

/// The product of the numbers from 1 to `x`.
pub open spec fn factorial(x: nat) -> nat
    decreases x,
{
    if x == 0 {
        1
    } else {
        x * factorial((x - 1) as nat)
    }
}

/// The factorial grows with its argument.
pub proof fn lemma_factorial_grows(x: nat, y: nat)
    requires
        x <= y,
    ensures
        1 <= factorial(x) <= factorial(y),
    decreases y,
{
    if x < y {
        lemma_factorial_grows(x, (y - 1) as nat);
        assert(factorial((y - 1) as nat) <= y * factorial((y - 1) as nat)) by (nonlinear_arith)
            requires
                y >= 1,
        ;
    } else if x > 0 {
        lemma_factorial_grows((x - 1) as nat, (x - 1) as nat);
        assert(1 <= x * factorial((x - 1) as nat)) by (nonlinear_arith)
            requires
                x >= 1,
                factorial((x - 1) as nat) >= 1,
        ;
    }
}

/// The factorial of `x`, which must be at most 12 for the result to fit.
pub fn factorialf32(x: u32) -> (r: u32)
    requires
        x <= 12,
    ensures
        r == factorial(x as nat),
    decreases x,
{
    proof {
        reveal_with_fuel(factorial, 13);
        lemma_factorial_grows(x as nat, 12);
        assert(factorial(12) == 479001600);
    }
    if x == 0 {
        return 1;
    }
    x * factorialf32(x - 1)
}

/// The factorial of `x`, which must be at most 20 for the result to fit.
pub fn factorialf64(x: u64) -> (r: u64)
    requires
        x <= 20,
    ensures
        r == factorial(x as nat),
    decreases x,
{
    proof {
        reveal_with_fuel(factorial, 21);
        lemma_factorial_grows(x as nat, 20);
        assert(factorial(20) == 2432902008176640000);
    }
    if x == 0 {
        return 1;
    }
    x * factorialf64(x - 1)
}

} // verus!
