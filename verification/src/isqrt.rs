use vstd::prelude::*;

use crate::arith::{lemma_div_bounds, lemma_mul_le};

verus! {

/// `r * r`, named so that quantifiers over squares have a trigger.
pub open spec fn square(r: int) -> int {
    r * r
}

/// `r` is the integer square root of `n`: the largest `r` with `r * r <= n`.
pub open spec fn is_floor_sqrt(n: int, r: int) -> bool {
    0 <= r && square(r) <= n && n < square(r + 1)
}

/// The integer square root of `n`.
pub open spec fn floor_sqrt(n: int) -> int {
    choose|r: int| is_floor_sqrt(n, r)
}

proof fn lemma_square_monotone(a: int, b: int)
    requires
        0 <= a <= b,
    ensures
        square(a) <= square(b),
{
    lemma_mul_le(a, a, b, b);
}

/// The integer square root is unique, so any root found equals `floor_sqrt`.
pub proof fn lemma_floor_sqrt_unique(n: int, r: int)
    requires
        is_floor_sqrt(n, r),
    ensures
        floor_sqrt(n) == r,
{
    let s: int = floor_sqrt(n);
    assert(is_floor_sqrt(n, s));
    if s < r {
        lemma_square_monotone(s + 1, r);
    } else if r < s {
        lemma_square_monotone(r + 1, s);
    }
}

/// Every non-negative integer has an integer square root, and it is below `2^64`
/// when the integer is below `2^128`.
pub proof fn lemma_floor_sqrt_exists(n: int)
    requires
        n >= 0,
    ensures
        is_floor_sqrt(n, floor_sqrt(n)),
        n <= u128::MAX ==> floor_sqrt(n) <= u64::MAX,
    decreases n,
{
    if n == 0 {
        assert(is_floor_sqrt(0, 0));
    } else {
        lemma_floor_sqrt_exists(n - 1);
        let r: int = floor_sqrt(n - 1);
        assert(square(r + 1) < square(r + 2)) by (nonlinear_arith)
            requires
                r >= 0,
        ;
        if square(r + 1) <= n {
            assert(is_floor_sqrt(n, r + 1));
        } else {
            assert(is_floor_sqrt(n, r));
        }
    }
    let s: int = floor_sqrt(n);
    if n <= u128::MAX && s > u64::MAX {
        lemma_square_monotone(u64::MAX + 1, s);
    }
}

/// One Newton step never drops below any root candidate `r` with `r * r <= n`.
proof fn lemma_newton_step_lower(n: int, x: int, r: int)
    requires
        n >= 0,
        x > 0,
        r >= 0,
        square(r) <= n,
    ensures
        r <= (x + n / x) / 2,
{
    let q: int = n / x;
    lemma_div_bounds(n, x);
    if x + q < 2 * r {
        assert(x * q <= x * (2 * r - 1 - x)) by (nonlinear_arith)
            requires
                x > 0,
                q <= 2 * r - 1 - x,
        ;
        assert(x * (2 * r - 1 - x) + x - 1 < r * r) by (nonlinear_arith);
        assert(false);
    }
}

/// Integer square root by Newton's method: the largest `r` with `r * r <= n`.
pub fn isqrt(n: u128) -> (r: u128)
    requires
        n < u128::MAX,
    ensures
        is_floor_sqrt(n as int, r as int),
{
    if n == 0 {
        return 0;
    }
    let mut x: u128 = n;
    let mut y: u128 = (x + 1) / 2;
    proof {
        vstd::arithmetic::div_mod::lemma_div_by_self(n as int);
        assert forall|r: int| 0 <= r && #[trigger] square(r) <= n implies r <= n by {
            if r >= 1 {
                lemma_mul_le(r, 1, r, r);
            }
        }
    }
    while y < x
        invariant
            0 < x <= n < u128::MAX,
            x == n || x <= (n + 1) / 2,
            y == (x + n / x) / 2,
            forall|r: int| 0 <= r && #[trigger] square(r) <= n ==> r <= x,
        decreases x,
    {
        let ghost old_x: int = x as int;
        x = y;
        proof {
            vstd::arithmetic::div_mod::lemma_div_by_self(n as int);
            assert(x <= (n + 1) / 2);
            assert forall|r: int| 0 <= r && #[trigger] square(r) <= n implies r <= x by {
                lemma_newton_step_lower(n as int, old_x, r);
            }
            assert(square(1) <= n);
            // a bound on n / x keeps the next step within 128 bits
            if square(x + 1) <= n {
                assert(x + 1 <= x);
            }
            lemma_div_bounds(n as int, x as int);
            if x < 0x1_0000_0000_0000_0000 {
                let q: int = n as int / x as int;
                assert(q <= x + 2) by (nonlinear_arith)
                    requires
                        x > 0,
                        x * q <= n,
                        n < (x + 1) * (x + 1),
                ;
            } else {
                let q: int = n as int / x as int;
                assert(q < 0x1_0000_0000_0000_0000) by (nonlinear_arith)
                    requires
                        x >= 0x1_0000_0000_0000_0000,
                        x * q <= n,
                        n < u128::MAX,
                ;
            }
        }
        y = (x + n / x) / 2;
    }
    proof {
        lemma_div_bounds(n as int, x as int);
        let q: int = n as int / x as int;
        assert(x * x <= x * q) by (nonlinear_arith)
            requires
                x > 0,
                x <= q,
        ;
        if square(x + 1) <= n {
            assert(x + 1 <= x);
        }
    }
    x
}

} // verus!
