//! Small division lemmas shared by the numeric modules.

use vstd::arithmetic::div_mod::lemma_div_is_ordered;
use vstd::arithmetic::div_mod::lemma_div_multiples_vanish;
use vstd::arithmetic::div_mod::lemma_div_pos_is_pos;
use vstd::arithmetic::div_mod::lemma_fundamental_div_mod_converse;
use vstd::prelude::*;

verus! {

/// A quotient of a bounded nonnegative numerator is bounded by the
/// quotient of the bound.
pub proof fn lemma_bound_div(n: int, nm: int, d: int)
    requires
        0 <= n <= nm,
        0 < d,
    ensures
        0 <= n / d <= nm / d,
{
    lemma_div_is_ordered(n, nm, d);
    lemma_div_pos_is_pos(n, d);
}

/// Establishes the value of a concrete division from its decomposition.
pub proof fn lemma_ground_div(n: int, d: int, q: int, r: int)
    requires
        n == q * d + r,
        0 <= r < d,
    ensures
        n / d == q,
{
    lemma_fundamental_div_mod_converse(n, d, q, r);
}

/// Multiplying by a factor of at most the divisor cannot grow a
/// nonnegative value.
pub proof fn lemma_shrinking_div(a: int, c: int, d: int)
    requires
        0 <= a,
        0 <= c <= d,
        0 < d,
    ensures
        0 <= (a * c) / d <= a,
{
    assert(a * c <= a * d && 0 <= a * c && a * d == d * a) by (nonlinear_arith)
        requires
            0 <= a,
            0 <= c <= d,
    ;
    lemma_div_is_ordered(a * c, a * d, d);
    lemma_div_multiples_vanish(a, d);
    lemma_div_pos_is_pos(a * c, d);
}

} // verus!
