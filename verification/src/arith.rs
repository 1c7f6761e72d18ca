//! Facts about integer division that the tone and size computations rest on.
//!
//! Division here is the mathematical one: for a positive divisor, `x / d` is
//! the largest integer `q` with `q * d <= x`, also for negative `x`.

use vstd::prelude::*;
use vstd::arithmetic::div_mod::{lemma_fundamental_div_mod, lemma_fundamental_div_mod_converse};

verus! {

/// The quotient by a positive divisor is the one integer `q` with
/// `q * d <= x < (q + 1) * d`.
pub proof fn lemma_floor_bounds(x: int, d: int)
    requires
        d > 0,
    ensures
        (x / d) * d <= x < (x / d) * d + d,
{
    lemma_fundamental_div_mod(x, d);
    assert(d * (x / d) == (x / d) * d) by (nonlinear_arith);
}

/// An integer `q` with `q * d <= x < (q + 1) * d` is the quotient of `x` by `d`.
pub proof fn lemma_floor_unique(x: int, d: int, q: int)
    requires
        d > 0,
        q * d <= x < q * d + d,
    ensures
        x / d == q,
{
    lemma_fundamental_div_mod_converse(x, d, q, x - q * d);
}

/// Division by a positive divisor keeps the order.
pub proof fn lemma_floor_monotonic(x: int, y: int, d: int)
    requires
        d > 0,
        x <= y,
    ensures
        x / d <= y / d,
{
    lemma_floor_bounds(x, d);
    lemma_floor_bounds(y, d);
    let p = x / d;
    let q = y / d;
    if p > q {
        assert(p * d >= q * d + d) by (nonlinear_arith)
            requires
                p >= q + 1,
                d > 0,
        ;
    }
}

/// Rounding up, `(x + d - 1) / d`, is the negated quotient of `-x`.
pub proof fn lemma_ceiling_is_negated_floor(x: int, d: int)
    requires
        d > 0,
    ensures
        (-x) / d == -((x + d - 1) / d),
{
    let up = (x + d - 1) / d;
    lemma_floor_bounds(x + d - 1, d);
    assert((-up) * d == -(up * d)) by (nonlinear_arith);
    lemma_floor_unique(-x, d, -up);
}

} // verus!
