//! Ceiling division and the facts about it that batching and chunking need.

use vstd::prelude::*;
use vstd::arithmetic::div_mod::lemma_fundamental_div_mod;
use vstd::arithmetic::mul::lemma_mul_inequality;

verus! {

/// `a / b` rounded up.
pub open spec fn ceil_div(a: nat, b: nat) -> nat
    recommends
        b >= 1,
{
    (((a + b - 1) as int) / (b as int)) as nat
}

pub proof fn lemma_ceil_div_bounds(a: nat, b: nat)
    requires
        b >= 1,
    ensures
        a <= ceil_div(a, b) * b,
        a > 0 ==> (ceil_div(a, b) - 1) * b < a,
        a > 0 ==> ceil_div(a, b) >= 1,
        a == 0 ==> ceil_div(a, b) == 0,
        ceil_div(a, b) <= a || a == 0,
{
    let n = (a + b - 1) as int;
    let d = b as int;
    let q = n / d;
    let r = n % d;
    lemma_fundamental_div_mod(n, d);
    assert(0 <= r < d) by (nonlinear_arith)
        requires n >= 0 && d >= 1 && r == n % d,
    ;
    assert(q * d == n - r);
    assert((q - 1) * d == q * d - d) by (nonlinear_arith);
    if a > 0 {
        assert(q >= 1) by (nonlinear_arith)
            requires q * d >= 1 && d >= 1,
        ;
        if b <= a {
            assert(q <= a) by (nonlinear_arith)
                requires q * d <= a + d - 1 && d >= 1 && a >= d && q >= 1,
            ;
        } else {
            assert(q * d < a + d);
            assert(q <= 1) by (nonlinear_arith)
                requires q * d < 2 * d && d >= 1,
            ;
        }
    } else {
        assert(q == 0) by (nonlinear_arith)
            requires q * d == n - r && 0 <= n - r && n - r < d && d >= 1,
        ;
    }
}

pub proof fn lemma_ceil_div_unique(a: nat, b: nat, q: nat)
    requires
        b >= 1,
        q >= 1,
        a <= q * b,
        (q - 1) * b < a,
    ensures
        q == ceil_div(a, b),
{
    let c = ceil_div(a, b) as int;
    assert(a > 0) by {
        assert((q - 1) * b >= 0) by (nonlinear_arith)
            requires q >= 1 && b >= 1,
        ;
    }
    lemma_ceil_div_bounds(a, b);
    if (q as int) < c {
        lemma_mul_inequality(q as int, c - 1, b as int);
        assert(false);
    }
    if (q as int) > c {
        lemma_mul_inequality(c, q - 1, b as int);
        assert(false);
    }
}

/// For `a >= 1`, the executable form `(a - 1) / b + 1` computes `ceil_div`.
pub proof fn lemma_ceil_div_computed(a: nat, b: nat)
    requires
        b >= 1,
        a >= 1,
    ensures
        ceil_div(a, b) == (a - 1) as nat / b + 1,
{
    let n = (a - 1) as int;
    let d = b as int;
    let q = n / d;
    let r = n % d;
    lemma_fundamental_div_mod(n, d);
    assert(0 <= r < d) by (nonlinear_arith)
        requires n >= 0 && d >= 1 && r == n % d,
    ;
    assert(q * d == n - r);
    assert((q + 1) * d == q * d + d) by (nonlinear_arith);
    assert((q + 1) * d == n - r + d);
    assert(q >= 0) by (nonlinear_arith)
        requires q * d >= n - d + 1 && n >= 0 && d >= 1,
    ;
    lemma_ceil_div_unique(a, b, (q + 1) as nat);
}

} // verus!
