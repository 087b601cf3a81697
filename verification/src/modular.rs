//! A fact on remainders used by the counter and queue arithmetic.

use vstd::prelude::*;

verus! {

/// Reduction modulo `m` of a value within one period around `[0, m)`.
pub proof fn lemma_mod_one_period(x: int, m: int)
    requires
        m > 0,
        -m <= x < 2 * m,
    ensures
        x % m == (if x < 0 {
            x + m
        } else if x < m {
            x
        } else {
            x - m
        }),
{
    if x < 0 {
        vstd::arithmetic::div_mod::lemma_fundamental_div_mod_converse_mod(x, m, -1, x + m);
    } else if x < m {
        vstd::arithmetic::div_mod::lemma_fundamental_div_mod_converse_mod(x, m, 0, x);
    } else {
        vstd::arithmetic::div_mod::lemma_fundamental_div_mod_converse_mod(x, m, 1, x - m);
    }
}

} // verus!
