use vstd::prelude::*;

verus! {

/// Floor division brackets its numerator: `d * (a / d) <= a < d * (a / d) + d`.
pub proof fn lemma_div_bounds(a: int, d: int)
    requires
        d > 0,
    ensures
        d * (a / d) <= a,
        a < d * (a / d) + d,
{
    vstd::arithmetic::div_mod::lemma_fundamental_div_mod(a, d);
    vstd::arithmetic::div_mod::lemma_mod_bound(a, d);
}

/// A lower bound on a product gives a lower bound on the quotient.
pub proof fn lemma_div_at_least(q: int, a: int, d: int)
    requires
        d > 0,
        d * q <= a,
    ensures
        q <= a / d,
{
    lemma_div_bounds(a, d);
    let f: int = a / d;
    if f < q {
        assert(d * f + d <= d * q) by (nonlinear_arith)
            requires
                d > 0,
                f < q,
        ;
    }
}

/// An upper bound on the numerator gives an upper bound on the quotient.
pub proof fn lemma_div_below(q: int, a: int, d: int)
    requires
        d > 0,
        a < d * q,
    ensures
        a / d < q,
{
    lemma_div_bounds(a, d);
    let f: int = a / d;
    if f >= q {
        assert(d * q <= d * f) by (nonlinear_arith)
            requires
                d > 0,
                f >= q,
        ;
    }
}

/// The product of two 64-bit values fits in 128 bits.
pub proof fn lemma_u64_product_fits(a: int, b: int)
    requires
        0 <= a <= u64::MAX,
        0 <= b <= u64::MAX,
    ensures
        0 <= a * b < u128::MAX,
{
    assert(0 <= a * b <= u64::MAX * u64::MAX) by (nonlinear_arith)
        requires
            0 <= a <= u64::MAX,
            0 <= b <= u64::MAX,
    ;
}

/// Products of non-negative values are monotone in each factor.
pub proof fn lemma_mul_le(a: int, b: int, c: int, d: int)
    requires
        0 <= a <= c,
        0 <= b <= d,
    ensures
        0 <= a * b <= c * d,
{
    assert(0 <= a * b <= c * d) by (nonlinear_arith)
        requires
            0 <= a <= c,
            0 <= b <= d,
    ;
}

/// Dividing a non-negative value by a larger positive value never grows it
/// beyond the numerator's scaled share: `(a * b) / c <= a` when `b <= c`.
pub proof fn lemma_scaled_share_le(a: int, b: int, c: int)
    requires
        a >= 0,
        0 <= b <= c,
        c > 0,
    ensures
        0 <= (a * b) / c <= a,
{
    lemma_mul_le(a, b, a, c);
    assert(a * c == c * a) by (nonlinear_arith);
    assert(a * b < c * (a + 1)) by (nonlinear_arith)
        requires
            a >= 0,
            0 <= b <= c,
            c > 0,
    ;
    lemma_div_below(a + 1, a * b, c);
    lemma_div_at_least(0, a * b, c);
}

} // verus!
