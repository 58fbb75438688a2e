//! Division rounded to the nearest integer.

use vstd::prelude::*;
use vstd::arithmetic::div_mod::*;
use vstd::arithmetic::mul::lemma_mul_is_commutative;

verus! {

/// `n / d` rounded down, for `d > 0`.
pub open spec fn floor_div(n: int, d: int) -> int {
    n / d
}

/// What `floor_div(n, d)` leaves of `n`: `n - d * floor_div(n, d)`, for
/// `d > 0`.
pub open spec fn remainder(n: int, d: int) -> int {
    n % d
}

/// A quotient and what it leaves are known by `n == d * q + r` with
/// `0 <= r < d`.
pub proof fn lemma_floor_div_is(n: int, d: int, q: int, r: int)
    requires
        0 <= r < d,
        n == d * q + r,
    ensures
        floor_div(n, d) == q,
        remainder(n, d) == r,
{
    lemma_mul_is_commutative(d, q);
    lemma_fundamental_div_mod_converse(n, d, q, r);
}

/// The integer nearest to `a / b`; a half is rounded up. Meant for `a >= 0`
/// and `b > 0`.
pub open spec fn round_div(a: int, b: int) -> int {
    floor_div(2 * a + b, 2 * b)
}

/// `round_div(a, b)` is the one integer within half a unit of `a / b`, the
/// upper one where two are.
pub proof fn lemma_round_div_nearest(a: int, b: int, q: int)
    requires
        a >= 0,
        b > 0,
    ensures
        q == round_div(a, b) <==> 2 * b * q - b <= 2 * a < 2 * b * q + b,
{
    let r = round_div(a, b);
    lemma_fundamental_div_mod(2 * a + b, 2 * b);
    lemma_mod_bound(2 * a + b, 2 * b);
    if q != r {
        if q < r {
            assert(2 * b * q + 2 * b <= 2 * b * r) by (nonlinear_arith)
                requires
                    q + 1 <= r,
                    b > 0,
            ;
        } else {
            assert(2 * b * r + 2 * b <= 2 * b * q) by (nonlinear_arith)
                requires
                    r + 1 <= q,
                    b > 0,
            ;
        }
    }
}

/// A quotient is never negative where neither operand is.
pub proof fn lemma_round_div_nonnegative(a: int, b: int)
    requires
        a >= 0,
        b > 0,
    ensures
        round_div(a, b) >= 0,
{
    lemma_div_pos_is_pos(2 * a + b, 2 * b);
}

/// Rounds `a / b` to the nearest integer, a half up.
pub fn round_div_u128(a: u128, b: u128) -> (q: u128)
    requires
        b > 0,
        2 * a + 2 * b <= u128::MAX,
    ensures
        q == round_div(a as int, b as int),
{
    (2 * a + b) / (2 * b)
}

} // verus!
