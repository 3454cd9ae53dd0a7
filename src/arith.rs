use vstd::prelude::*;
use vstd::arithmetic::div_mod::{lemma_fundamental_div_mod, lemma_mod_pos_bound};

verus! {

/// Floor division brackets its dividend.
pub proof fn lemma_div_bounds(x: int, d: int)
    requires
        x >= 0,
        d > 0,
    ensures
        (x / d) * d <= x,
        x < (x / d) * d + d,
        x / d >= 0,
        x / d <= x,
        x == (x / d) * d + x % d,
        0 <= x % d < d,
{
    lemma_fundamental_div_mod(x, d);
    lemma_mod_pos_bound(x, d);
    assert((x / d) * d == d * (x / d)) by (nonlinear_arith);
    assert(x / d >= 0) by (nonlinear_arith)
        requires
            x == d * (x / d) + x % d,
            0 <= x % d < d,
            d > 0,
            x >= 0,
    ;
    assert(x / d <= x) by (nonlinear_arith)
        requires
            x == d * (x / d) + x % d,
            0 <= x % d,
            x / d >= 0,
            d > 0,
    ;
}

/// `q <= x / d` exactly when `q * d <= x`.
pub proof fn lemma_le_div_iff(q: int, x: int, d: int)
    requires
        x >= 0,
        d > 0,
    ensures
        q <= x / d <==> q * d <= x,
{
    lemma_div_bounds(x, d);
    let f = x / d;
    if q <= f {
        assert(q * d <= f * d) by (nonlinear_arith)
            requires
                q <= f,
                d > 0,
        ;
    } else {
        assert((f + 1) * d <= q * d) by (nonlinear_arith)
            requires
                f + 1 <= q,
                d > 0,
        ;
        assert((f + 1) * d == f * d + d) by (nonlinear_arith);
    }
}

/// Floor division is monotone in the ratio: `x1 / d1 <= x2 / d2` when `x1 * d2 <= x2 * d1`.
pub proof fn lemma_div_le_cross(x1: int, d1: int, x2: int, d2: int)
    requires
        x1 >= 0,
        x2 >= 0,
        d1 > 0,
        d2 > 0,
        x1 * d2 <= x2 * d1,
    ensures
        x1 / d1 <= x2 / d2,
{
    lemma_div_bounds(x1, d1);
    let q = x1 / d1;
    assert(q * d2 <= x2) by (nonlinear_arith)
        requires
            q * d1 <= x1,
            x1 * d2 <= x2 * d1,
            d1 > 0,
            d2 > 0,
            q >= 0,
    ;
    lemma_le_div_iff(q, x2, d2);
}

/// A product of two factors bounded by `m` is bounded by `m` times the other factor.
pub proof fn lemma_mul_le_right(a: int, b: int, c: int)
    requires
        a <= b,
        c >= 0,
    ensures
        a * c <= b * c,
{
    assert(a * c <= b * c) by (nonlinear_arith)
        requires
            a <= b,
            c >= 0,
    ;
}

} // verus!
