//! Properties of the quotes that hold for every input.
use vstd::prelude::*;

use crate::arith::{lemma_div_at_least, lemma_div_below, lemma_div_bounds, lemma_mul_le};
use crate::error::CpmmError;
use crate::isqrt::{is_floor_sqrt, lemma_floor_sqrt_exists};
use crate::model::{
    balanced_lp, curve_out, fee_factor, pro_rata, spec_deposit, spec_deposit_balanced,
    spec_pool_swap_out, spec_swap, spec_swap_out_raw, spec_swap_out_x_for_y, spec_swap_out_y_for_x,
    spec_withdraw, spec_withdraw_single_x, spec_withdraw_single_y,
};
use crate::pool::{DepositQuote, PoolState, Side, SwapQuote, WithdrawQuote};

verus! {

/// The constant-product curve never pays out more than the reserve it draws on, and
/// leaves `k` no smaller: `out * (reserve_in + amount) <= reserve_out * amount`.
pub proof fn lemma_curve_out_bounds(reserve_in: int, reserve_out: int, gamma: int, amount: int)
    requires
        reserve_in >= 0,
        reserve_out >= 0,
        0 <= gamma <= 10_000,
        amount >= 0,
        10_000 * reserve_in + gamma * amount > 0,
    ensures
        0 <= curve_out(reserve_in, reserve_out, gamma, amount) <= reserve_out,
        curve_out(reserve_in, reserve_out, gamma, amount) * (reserve_in + amount) <= reserve_out * amount,
        reserve_in > 0 && reserve_out > 0 ==> curve_out(reserve_in, reserve_out, gamma, amount) < reserve_out,
{
    let num: int = gamma * reserve_out * amount;
    let den: int = 10_000 * reserve_in + gamma * amount;
    let out: int = curve_out(reserve_in, reserve_out, gamma, amount);
    lemma_mul_le(gamma, reserve_out, 10_000, reserve_out);
    lemma_mul_le(gamma * reserve_out, amount, gamma * reserve_out, amount);
    lemma_div_bounds(num, den);
    lemma_div_at_least(0, num, den);
    if amount == 0 {
        assert(gamma * amount == 0);
    }
    if gamma == 0 {
        assert(num == 0) by (nonlinear_arith)
            requires
                gamma == 0,
                num == gamma * reserve_out * amount,
        ;
        lemma_div_below(1, num, den);
        assert(out == 0);
    } else {
        // γ (reserve_in + amount) <= den, so out γ (reserve_in + amount) <= out den <= γ reserve_out amount
        assert(out * (reserve_in + amount) <= reserve_out * amount) by (nonlinear_arith)
            requires
                1 <= gamma <= 10_000,
                reserve_in >= 0,
                amount >= 0,
                out >= 0,
                den * out <= num,
                num == gamma * reserve_out * amount,
                den == 10_000 * reserve_in + gamma * amount,
        ;
    }
    if out > reserve_out {
        assert(out * (reserve_in + amount) > reserve_out * amount) by (nonlinear_arith)
            requires
                out > reserve_out,
                reserve_out >= 0,
                reserve_in >= 0,
                amount >= 0,
                reserve_in + amount > 0,
        ;
    }
    if reserve_in > 0 && reserve_out > 0 && out >= reserve_out {
        assert(out * (reserve_in + amount) > reserve_out * amount) by (nonlinear_arith)
            requires
                out >= reserve_out,
                reserve_out > 0,
                reserve_in > 0,
                amount >= 0,
        ;
    }
}

/// Where the checked curve succeeds on a paid-out reserve that fits in 64 bits, the
/// 64-bit result is the exact curve value, at most that reserve.
pub proof fn lemma_swap_out_raw_exact(reserve_in: int, reserve_out: int, amount: int, fee_bps: u16)
    requires
        0 <= reserve_in,
        0 <= reserve_out <= u64::MAX,
        amount >= 0,
        spec_swap_out_raw(reserve_in, reserve_out, amount, fee_bps) is Ok,
    ensures
        spec_swap_out_raw(reserve_in, reserve_out, amount, fee_bps) == Ok::<u64, CpmmError>(
            curve_out(reserve_in, reserve_out, fee_factor(fee_bps), amount) as u64,
        ),
        0 <= curve_out(reserve_in, reserve_out, fee_factor(fee_bps), amount) <= reserve_out,
        curve_out(reserve_in, reserve_out, fee_factor(fee_bps), amount) * (reserve_in + amount)
            <= reserve_out * amount,
{
    lemma_curve_out_bounds(reserve_in, reserve_out, fee_factor(fee_bps), amount);
}

/// A successful swap pays out less than the reserve it draws on and never lowers
/// `k = x * y`: the post-swap reserves sit on or above the curve. It takes the whole
/// input and meets the caller's floor.
pub proof fn law_swap_keeps_k(pool: PoolState, amount_in: u64, side: Side, min_out: u64)
    ensures
        spec_swap(pool, amount_in, side, min_out) matches Ok(q) ==> {
            &&& q.amount_in == amount_in
            &&& q.amount_out >= min_out
            &&& side == Side::X ==> {
                &&& q.amount_out < pool.reserve_y
                &&& (pool.reserve_x + q.amount_in) * (pool.reserve_y - q.amount_out)
                    >= pool.reserve_x * pool.reserve_y
            }
            &&& side == Side::Y ==> {
                &&& q.amount_out < pool.reserve_x
                &&& (pool.reserve_x - q.amount_out) * (pool.reserve_y + q.amount_in)
                    >= pool.reserve_x * pool.reserve_y
            }
        },
{
    if let Ok(q) = spec_swap(pool, amount_in, side, min_out) {
        let x: int = pool.reserve_x as int;
        let y: int = pool.reserve_y as int;
        let a: int = amount_in as int;
        let g: int = fee_factor(pool.fee_bps);
        if side == Side::X {
            lemma_curve_out_bounds(x, y, g, a);
            let out: int = curve_out(x, y, g, a);
            assert(q.amount_out == out);
            assert((x + a) * (y - out) >= x * y) by (nonlinear_arith)
                requires
                    out * (x + a) <= y * a,
            ;
        } else {
            lemma_curve_out_bounds(y, x, g, a);
            let out: int = curve_out(y, x, g, a);
            assert(q.amount_out == out);
            assert((x - out) * (y + a) >= x * y) by (nonlinear_arith)
                requires
                    out * (y + a) <= x * a,
            ;
        }
    }
}

/// A fee of 10 000 basis points or more is refused by every deposit, and by every swap
/// that passes the amount, side and reserve checks.
pub proof fn law_fee_bound(
    pool: PoolState,
    amount_in: u64,
    side: Side,
    min_out: u64,
    token_x: Option<u64>,
    token_y: Option<u64>,
    min_lp: u64,
)
    requires
        pool.fee_bps >= 10_000,
    ensures
        spec_deposit(pool, token_x, token_y, side, min_lp) == Err::<DepositQuote, CpmmError>(
            CpmmError::InvalidFee,
        ),
        amount_in > 0 && side != Side::Balanced && pool.reserve_x > 0 && pool.reserve_y > 0
            ==> spec_swap(pool, amount_in, side, min_out) == Err::<SwapQuote, CpmmError>(
            CpmmError::InvalidFee,
        ),
{
}

/// `x * lp / l <= t` whenever `lp <= t * l / x`.
proof fn lemma_share_of_limit(x: int, lp: int, t: int, l: int)
    requires
        x > 0,
        l > 0,
        t >= 0,
        0 <= lp <= t * l / x,
    ensures
        0 <= x * lp / l <= t,
{
    lemma_div_bounds(t * l, x);
    lemma_mul_le(x, lp, x, t * l / x);
    assert(x * lp < l * (t + 1)) by (nonlinear_arith)
        requires
            x * lp <= t * l,
            l > 0,
    ;
    lemma_div_below(t + 1, x * lp, l);
    lemma_mul_le(0, 0, x, lp);
    lemma_div_at_least(0, x * lp, l);
}

/// Shared facts about a successful balanced deposit.
pub proof fn lemma_balanced_deposit_bounds(pool: PoolState, token_x: u64, token_y: u64, min_lp: u64)
    requires
        spec_deposit_balanced(pool, token_x, token_y, min_lp) is Ok,
    ensures
        ({
            let q = spec_deposit_balanced(pool, token_x, token_y, min_lp)->Ok_0;
            &&& q.deposit_x <= token_x
            &&& q.deposit_y <= token_y
            &&& q.lp_minted >= min_lp
            &&& q.deposit_x > 0 && q.deposit_y > 0
            &&& q.swap_in_x == 0 && q.swap_in_y == 0 && q.swap_out_x == 0 && q.swap_out_y == 0
            &&& pool.lp_supply == 0 ==> {
                &&& q.deposit_x == token_x
                &&& q.deposit_y == token_y
                &&& is_floor_sqrt(token_x * token_y, q.lp_minted as int)
                &&& q.lp_minted > 0
            }
            &&& pool.lp_supply > 0 ==> {
                &&& pool.reserve_x > 0 && pool.reserve_y > 0
                &&& balanced_lp(pool, token_x, token_y) > 0
                &&& q.deposit_x == pool.reserve_x * balanced_lp(pool, token_x, token_y) / (
                pool.lp_supply as int)
                &&& q.deposit_y == pool.reserve_y * balanced_lp(pool, token_x, token_y) / (
                pool.lp_supply as int)
                &&& q.lp_minted == balanced_lp(pool, token_x, token_y)
            }
        }),
{
    if pool.lp_supply == 0 {
        let n: int = token_x * token_y;
        crate::arith::lemma_u64_product_fits(token_x as int, token_y as int);
        lemma_floor_sqrt_exists(n);
    } else {
        let l: int = pool.lp_supply as int;
        let x: int = pool.reserve_x as int;
        let y: int = pool.reserve_y as int;
        let tx: int = token_x as int;
        let ty: int = token_y as int;
        lemma_mul_le(0, 0, tx, l);
        lemma_mul_le(0, 0, ty, l);
        lemma_div_at_least(0, tx * l, x);
        lemma_div_at_least(0, ty * l, y);
        let lp: int = balanced_lp(pool, token_x, token_y);
        lemma_share_of_limit(x, lp, tx, l);
        lemma_share_of_limit(y, lp, ty, l);
    }
}

/// A balanced deposit never takes more of a token than was offered; the first mint
/// takes both amounts whole and mints `isqrt(Δx * Δy)`; the LP minted meets the floor.
pub proof fn law_balanced_deposit_within_offer(pool: PoolState, token_x: u64, token_y: u64, min_lp: u64)
    ensures
        spec_deposit(pool, Some(token_x), Some(token_y), Side::Balanced, min_lp) matches Ok(q) ==> {
            &&& q.deposit_x <= token_x
            &&& q.deposit_y <= token_y
            &&& q.lp_minted >= min_lp
            &&& q.swap_in_x == 0 && q.swap_in_y == 0 && q.swap_out_x == 0 && q.swap_out_y == 0
            &&& pool.lp_supply == 0 ==> {
                &&& q.deposit_x == token_x
                &&& q.deposit_y == token_y
                &&& is_floor_sqrt(token_x * token_y, q.lp_minted as int)
            }
        },
{
    if spec_deposit(pool, Some(token_x), Some(token_y), Side::Balanced, min_lp) is Ok {
        lemma_balanced_deposit_bounds(pool, token_x, token_y, min_lp);
    }
}

/// A single-sided deposit never takes more of the paid token than was offered: the swap
/// leg takes `token / 2`, the deposit leg at most the rest; of the token received from the
/// swap, the deposit leg takes back at most what was received. The LP minted meets the floor.
pub proof fn law_single_sided_deposit_within_offer(pool: PoolState, token: u64, min_lp: u64)
    ensures
        spec_deposit(pool, Some(token), None, Side::X, min_lp) matches Ok(q) ==> {
            &&& q.swap_in_x == token / 2
            &&& q.swap_in_x + q.deposit_x <= token
            &&& q.deposit_y <= q.swap_out_y
            &&& q.swap_in_y == 0 && q.swap_out_x == 0
            &&& q.lp_minted >= min_lp
            &&& spec_pool_swap_out(pool, q.swap_in_x, Side::X) == Ok::<u64, CpmmError>(q.swap_out_y)
        },
        spec_deposit(pool, None, Some(token), Side::Y, min_lp) matches Ok(q) ==> {
            &&& q.swap_in_y == token / 2
            &&& q.swap_in_y + q.deposit_y <= token
            &&& q.deposit_x <= q.swap_out_x
            &&& q.swap_in_x == 0 && q.swap_out_y == 0
            &&& q.lp_minted >= min_lp
            &&& spec_pool_swap_out(pool, q.swap_in_y, Side::Y) == Ok::<u64, CpmmError>(q.swap_out_x)
        },
{
    if spec_deposit(pool, Some(token), None, Side::X, min_lp) is Ok {
        let s: int = (token / 2) as int;
        let y_out: u64 = spec_pool_swap_out(pool, s as u64, Side::X)->Ok_0;
        let after = PoolState {
            reserve_x: (pool.reserve_x + s) as u64,
            reserve_y: (pool.reserve_y - y_out) as u64,
            lp_supply: pool.lp_supply,
            fee_bps: pool.fee_bps,
        };
        lemma_balanced_deposit_bounds(after, (token - s) as u64, y_out, min_lp);
    }
    if spec_deposit(pool, None, Some(token), Side::Y, min_lp) is Ok {
        let s: int = (token / 2) as int;
        let x_out: u64 = spec_pool_swap_out(pool, s as u64, Side::Y)->Ok_0;
        let after = PoolState {
            reserve_x: (pool.reserve_x - x_out) as u64,
            reserve_y: (pool.reserve_y + s) as u64,
            lp_supply: pool.lp_supply,
            fee_bps: pool.fee_bps,
        };
        lemma_balanced_deposit_bounds(after, x_out, (token - s) as u64, min_lp);
    }
}

/// The pool after a deposit quote is carried out.
pub open spec fn pool_after_deposit(pool: PoolState, q: DepositQuote) -> PoolState {
    PoolState {
        reserve_x: (pool.reserve_x + q.deposit_x) as u64,
        reserve_y: (pool.reserve_y + q.deposit_y) as u64,
        lp_supply: (pool.lp_supply + q.lp_minted) as u64,
        fee_bps: pool.fee_bps,
    }
}

/// `(reserve + share) * lp / (supply + lp) == share` where `share = reserve * lp / supply`:
/// adding a pro-rata share and its LP keeps the pro-rata share of that LP unchanged.
proof fn lemma_share_round_trip(reserve: int, lp: int, supply: int)
    requires
        reserve >= 0,
        lp > 0,
        supply > 0,
    ensures
        (reserve + reserve * lp / supply) * lp / (supply + lp) == reserve * lp / supply,
{
    let d: int = reserve * lp / supply;
    lemma_div_bounds(reserve * lp, supply);
    assert((supply + lp) * d <= (reserve + d) * lp) by (nonlinear_arith)
        requires
            supply * d <= reserve * lp,
    ;
    assert((reserve + d) * lp < (supply + lp) * (d + 1)) by (nonlinear_arith)
        requires
            reserve * lp < supply * d + supply,
            lp > 0,
    ;
    lemma_div_at_least(d, (reserve + d) * lp, supply + lp);
    lemma_div_below(d + 1, (reserve + d) * lp, supply + lp);
}

/// Depositing both tokens and then burning exactly the LP minted returns exactly the
/// amounts deposited (on a pool with LP outstanding, or a fresh empty one), as long as
/// the grown pool fits in 64 bits.
pub proof fn law_deposit_then_withdraw_returns_deposit(pool: PoolState, token_x: u64, token_y: u64, min_lp: u64)
    requires
        pool.lp_supply > 0 || (pool.reserve_x == 0 && pool.reserve_y == 0),
    ensures
        spec_deposit(pool, Some(token_x), Some(token_y), Side::Balanced, min_lp) matches Ok(q) ==> {
            pool.reserve_x + q.deposit_x <= u64::MAX && pool.reserve_y + q.deposit_y <= u64::MAX
                && pool.lp_supply + q.lp_minted <= u64::MAX ==> spec_withdraw(
                pool_after_deposit(pool, q),
                q.lp_minted,
                Side::Balanced,
                0,
                0,
            ) == Ok::<WithdrawQuote, CpmmError>(
                WithdrawQuote {
                    withdraw_x: q.deposit_x,
                    withdraw_y: q.deposit_y,
                    pro_rata_x: q.deposit_x,
                    pro_rata_y: q.deposit_y,
                    swap_in_x: 0,
                    swap_in_y: 0,
                    swap_out_x: 0,
                    swap_out_y: 0,
                },
            )
        },
{
    if let Ok(q) = spec_deposit(pool, Some(token_x), Some(token_y), Side::Balanced, min_lp) {
        lemma_balanced_deposit_bounds(pool, token_x, token_y, min_lp);
        if pool.reserve_x + q.deposit_x <= u64::MAX && pool.reserve_y + q.deposit_y <= u64::MAX
            && pool.lp_supply + q.lp_minted <= u64::MAX {
            let after = pool_after_deposit(pool, q);
            let lp: int = q.lp_minted as int;
            if pool.lp_supply == 0 {
                assert(token_x * lp / lp == token_x) by {
                    assert(lp * token_x <= token_x * lp) by (nonlinear_arith);
                    assert(token_x * lp < lp * (token_x + 1)) by (nonlinear_arith)
                        requires
                            lp > 0,
                    ;
                    lemma_div_at_least(token_x as int, token_x * lp, lp);
                    lemma_div_below(token_x + 1, token_x * lp, lp);
                }
                assert(token_y * lp / lp == token_y) by {
                    assert(token_y * lp < lp * (token_y + 1)) by (nonlinear_arith)
                        requires
                            lp > 0,
                    ;
                    assert(lp * token_y <= token_y * lp) by (nonlinear_arith);
                    lemma_div_at_least(token_y as int, token_y * lp, lp);
                    lemma_div_below(token_y + 1, token_y * lp, lp);
                }
                assert(pro_rata(after.reserve_x, q.lp_minted, after.lp_supply) == token_x);
                assert(pro_rata(after.reserve_y, q.lp_minted, after.lp_supply) == token_y);
            } else {
                assert(lp == balanced_lp(pool, token_x, token_y));
                lemma_share_round_trip(pool.reserve_x as int, lp, pool.lp_supply as int);
                lemma_share_round_trip(pool.reserve_y as int, lp, pool.lp_supply as int);
                assert(pro_rata(after.reserve_x, q.lp_minted, after.lp_supply) == q.deposit_x);
                assert(pro_rata(after.reserve_y, q.lp_minted, after.lp_supply) == q.deposit_y);
            }
        }
    }
}

/// A balanced withdraw pays each token at most its pro-rata share `reserve * ΔL / L`
/// (rounding favours the pool), so each remaining LP unit is backed by no less of either
/// token than before; it pays never more than the reserve when at most the whole supply
/// is burned, and meets both floors; it has no swap leg.
pub proof fn law_balanced_withdraw_pro_rata(pool: PoolState, lp_amount: u64, min_x: u64, min_y: u64)
    ensures
        spec_withdraw(pool, lp_amount, Side::Balanced, min_x, min_y) matches Ok(w) ==> {
            &&& w.withdraw_x >= min_x && w.withdraw_y >= min_y
            &&& w.withdraw_x * pool.lp_supply <= pool.reserve_x * lp_amount
            &&& w.withdraw_y * pool.lp_supply <= pool.reserve_y * lp_amount
            &&& w.pro_rata_x == w.withdraw_x && w.pro_rata_y == w.withdraw_y
            &&& w.swap_in_x == 0 && w.swap_in_y == 0 && w.swap_out_x == 0 && w.swap_out_y == 0
            &&& lp_amount <= pool.lp_supply ==> w.withdraw_x <= pool.reserve_x && w.withdraw_y
                <= pool.reserve_y
            &&& (pool.reserve_x - w.withdraw_x) * pool.lp_supply >= pool.reserve_x * (pool.lp_supply
                - lp_amount)
            &&& (pool.reserve_y - w.withdraw_y) * pool.lp_supply >= pool.reserve_y * (pool.lp_supply
                - lp_amount)
        },
{
    if let Ok(w) = spec_withdraw(pool, lp_amount, Side::Balanced, min_x, min_y) {
        let l: int = pool.lp_supply as int;
        lemma_pro_rata_bounds(pool.reserve_x, lp_amount, pool.lp_supply);
        lemma_pro_rata_bounds(pool.reserve_y, lp_amount, pool.lp_supply);
        let vx: int = pro_rata(pool.reserve_x, lp_amount, pool.lp_supply);
        let vy: int = pro_rata(pool.reserve_y, lp_amount, pool.lp_supply);
        assert(w.withdraw_x <= vx);
        assert(w.withdraw_y <= vy);
        lemma_mul_le(w.withdraw_x as int, l, vx, l);
        lemma_mul_le(w.withdraw_y as int, l, vy, l);
        let x: int = pool.reserve_x as int;
        let y: int = pool.reserve_y as int;
        let dl: int = lp_amount as int;
        let wx: int = w.withdraw_x as int;
        let wy: int = w.withdraw_y as int;
        assert((x - wx) * l >= x * (l - dl)) by (nonlinear_arith)
            requires
                wx * l <= x * dl,
        ;
        assert((y - wy) * l >= y * (l - dl)) by (nonlinear_arith)
            requires
                wy * l <= y * dl,
        ;
    }
}

/// `reserve * ΔL / L` is non-negative, its product with `L` is at most `reserve * ΔL`,
/// and it is at most `reserve` when `ΔL <= L`.
proof fn lemma_pro_rata_bounds(reserve: u64, lp_amount: u64, lp_supply: u64)
    requires
        lp_supply > 0,
    ensures
        0 <= pro_rata(reserve, lp_amount, lp_supply),
        pro_rata(reserve, lp_amount, lp_supply) * lp_supply <= reserve * lp_amount,
        lp_amount <= lp_supply ==> pro_rata(reserve, lp_amount, lp_supply) <= reserve,
{
    lemma_mul_le(0, 0, reserve as int, lp_amount as int);
    lemma_div_at_least(0, reserve * lp_amount, lp_supply as int);
    lemma_div_bounds(reserve * lp_amount, lp_supply as int);
    if lp_amount <= lp_supply {
        crate::arith::lemma_scaled_share_le(reserve as int, lp_amount as int, lp_supply as int);
    }
}

/// A single-sided withdraw pays only the requested token: the other token's pro-rata
/// share goes back into the vault as the swap input, and the payout is the pro-rata
/// share plus the swap output, never more than the reserve, and meets the floor.
pub proof fn law_single_sided_withdraw(pool: PoolState, lp_amount: u64, min_x: u64, min_y: u64)
    ensures
        spec_withdraw(pool, lp_amount, Side::X, min_x, min_y) matches Ok(w) ==> {
            &&& w.withdraw_y == 0 && w.swap_in_x == 0 && w.swap_out_y == 0
            &&& w.swap_in_y == w.pro_rata_y
            &&& w.withdraw_x == w.pro_rata_x + w.swap_out_x
            &&& w.withdraw_x <= pool.reserve_x
            &&& w.withdraw_x >= min_x
        },
        spec_withdraw(pool, lp_amount, Side::Y, min_x, min_y) matches Ok(w) ==> {
            &&& w.withdraw_x == 0 && w.swap_in_y == 0 && w.swap_out_x == 0
            &&& w.swap_in_x == w.pro_rata_x
            &&& w.withdraw_y == w.pro_rata_y + w.swap_out_y
            &&& w.withdraw_y <= pool.reserve_y
            &&& w.withdraw_y >= min_y
        },
{
    if spec_withdraw(pool, lp_amount, Side::X, min_x, min_y) is Ok {
        lemma_pro_rata_bounds(pool.reserve_x, lp_amount, pool.lp_supply);
        lemma_pro_rata_bounds(pool.reserve_y, lp_amount, pool.lp_supply);
        let wx0: int = pro_rata(pool.reserve_x, lp_amount, pool.lp_supply);
        let wy: int = pro_rata(pool.reserve_y, lp_amount, pool.lp_supply);
        lemma_swap_out_raw_exact(pool.reserve_y - wy, pool.reserve_x - wx0, wy, pool.fee_bps);
    }
    if spec_withdraw(pool, lp_amount, Side::Y, min_x, min_y) is Ok {
        lemma_pro_rata_bounds(pool.reserve_x, lp_amount, pool.lp_supply);
        lemma_pro_rata_bounds(pool.reserve_y, lp_amount, pool.lp_supply);
        let wx: int = pro_rata(pool.reserve_x, lp_amount, pool.lp_supply);
        let wy0: int = pro_rata(pool.reserve_y, lp_amount, pool.lp_supply);
        lemma_swap_out_raw_exact(pool.reserve_x - wx, pool.reserve_y - wy0, wx, pool.fee_bps);
    }
}

/// The curve's output never decreases as the input grows.
proof fn lemma_curve_out_monotone(reserve_in: int, reserve_out: int, gamma: int, a1: int, a2: int)
    requires
        reserve_in >= 0,
        reserve_out >= 0,
        0 <= gamma,
        0 <= a1 <= a2,
        10_000 * reserve_in + gamma * a1 > 0,
    ensures
        curve_out(reserve_in, reserve_out, gamma, a1) <= curve_out(reserve_in, reserve_out, gamma, a2),
{
    let n1: int = gamma * reserve_out * a1;
    let n2: int = gamma * reserve_out * a2;
    let d1: int = 10_000 * reserve_in + gamma * a1;
    let d2: int = 10_000 * reserve_in + gamma * a2;
    let q1: int = n1 / d1;
    lemma_mul_le(gamma, a1, gamma, a2);
    lemma_mul_le(0, 0, gamma * reserve_out, a1);
    lemma_div_bounds(n1, d1);
    lemma_div_at_least(0, n1, d1);
    // n1 * d2 <= n2 * d1: the difference is γ * reserve_out * 10 000 * reserve_in * (a2 - a1)
    assert(n1 * d2 <= n2 * d1) by (nonlinear_arith)
        requires
            n1 == gamma * reserve_out * a1,
            n2 == gamma * reserve_out * a2,
            d1 == 10_000 * reserve_in + gamma * a1,
            d2 == 10_000 * reserve_in + gamma * a2,
            reserve_in >= 0,
            reserve_out >= 0,
            gamma >= 0,
            0 <= a1 <= a2,
    ;
    assert(d2 * q1 <= n2) by (nonlinear_arith)
        requires
            d1 * q1 <= n1,
            n1 * d2 <= n2 * d1,
            d1 > 0,
            d2 >= d1,
            q1 >= 0,
    ;
    lemma_div_at_least(q1, n2, d2);
}

/// Paying in more never yields less: for one pool and one side, the swap output of a
/// larger input is at least that of a smaller one, wherever both quotes succeed.
pub proof fn law_swap_output_monotone(pool: PoolState, a1: u64, a2: u64, side: Side, min_out: u64)
    requires
        a1 <= a2,
    ensures
        spec_pool_swap_out(pool, a1, side) is Ok && spec_pool_swap_out(pool, a2, side) is Ok
            ==> spec_pool_swap_out(pool, a1, side)->Ok_0 <= spec_pool_swap_out(pool, a2, side)->Ok_0,
        spec_swap(pool, a1, side, min_out) is Ok && spec_swap(pool, a2, side, min_out) is Ok
            ==> spec_swap(pool, a1, side, min_out)->Ok_0.amount_out <= spec_swap(
            pool,
            a2,
            side,
            min_out,
        )->Ok_0.amount_out,
{
    if spec_pool_swap_out(pool, a1, side) is Ok && spec_pool_swap_out(pool, a2, side) is Ok {
        let (rin, rout): (int, int) = if side == Side::X {
            (pool.reserve_x as int, pool.reserve_y as int)
        } else {
            (pool.reserve_y as int, pool.reserve_x as int)
        };
        lemma_swap_out_raw_exact(rin, rout, a1 as int, pool.fee_bps);
        lemma_swap_out_raw_exact(rin, rout, a2 as int, pool.fee_bps);
        lemma_curve_out_monotone(rin, rout, fee_factor(pool.fee_bps), a1 as int, a2 as int);
    }
}

/// Paying X on reserves `(x, y)` is paying Y on the mirrored reserves `(y, x)`.
pub proof fn law_swap_out_mirror(x: int, y: int, amount: int, fee_bps: u16)
    ensures
        spec_swap_out_x_for_y(x, y, amount, fee_bps) == spec_swap_out_y_for_x(y, x, amount, fee_bps),
{
}

/// The same pool with its two tokens exchanged.
pub open spec fn mirror_pool(p: PoolState) -> PoolState {
    PoolState { reserve_x: p.reserve_y, reserve_y: p.reserve_x, lp_supply: p.lp_supply, fee_bps: p.fee_bps }
}

/// A withdraw quote with its two tokens exchanged.
pub open spec fn mirror_withdraw(q: WithdrawQuote) -> WithdrawQuote {
    WithdrawQuote {
        withdraw_x: q.withdraw_y,
        withdraw_y: q.withdraw_x,
        pro_rata_x: q.pro_rata_y,
        pro_rata_y: q.pro_rata_x,
        swap_in_x: q.swap_in_y,
        swap_in_y: q.swap_in_x,
        swap_out_x: q.swap_out_y,
        swap_out_y: q.swap_out_x,
    }
}

/// Two withdraw results are mirror images: the same error, or quotes with the tokens exchanged.
pub open spec fn mirrored(a: Result<WithdrawQuote, CpmmError>, b: Result<WithdrawQuote, CpmmError>) -> bool {
    match (a, b) {
        (Ok(qa), Ok(qb)) => qb == mirror_withdraw(qa),
        (Err(ea), Err(eb)) => ea == eb,
        _ => false,
    }
}

/// The two token sides are symmetric: swapping Y on the mirrored pool is swapping X,
/// and a Y-only withdraw on the mirrored pool is the X-only withdraw with the tokens
/// (and the floors) exchanged.
pub proof fn law_sides_mirror(pool: PoolState, amount: u64, min_out: u64, lp_amount: u64, min_x: u64, min_y: u64)
    ensures
        spec_pool_swap_out(mirror_pool(pool), amount, Side::Y) == spec_pool_swap_out(pool, amount, Side::X),
        spec_swap(mirror_pool(pool), amount, Side::Y, min_out) == spec_swap(pool, amount, Side::X, min_out),
        mirrored(spec_withdraw_single_x(pool, lp_amount), spec_withdraw_single_y(mirror_pool(pool), lp_amount)),
        mirrored(
            spec_withdraw(pool, lp_amount, Side::X, min_x, min_y),
            spec_withdraw(mirror_pool(pool), lp_amount, Side::Y, min_y, min_x),
        ),
{
}

/// A successful single-sided deposit is a swap of half the paid token followed by a
/// balanced deposit at the post-swap reserves. For X: the swap pays `s = token / 2` X and
/// receives `γ y s / (10 000 x + γ s)` Y (`γ = 10 000 - fee_bps`); the LP minted is the
/// smaller of `(token - s) L / (x + s)` and `swap_out_y L / (y - swap_out_y)`, and the
/// amounts taken are the pro-rata shares of that LP of the post-swap reserves
/// `(x + s, y - swap_out_y)`. Y is the mirror.
pub proof fn law_single_sided_deposit_is_swap_then_balanced(pool: PoolState, token: u64, min_lp: u64)
    ensures
        spec_deposit(pool, Some(token), None, Side::X, min_lp) matches Ok(q) ==> {
            let s: int = token as int / 2;
            let g: int = 10_000 - pool.fee_bps;
            let l: int = pool.lp_supply as int;
            let x1: int = pool.reserve_x + s;
            let y1: int = pool.reserve_y - q.swap_out_y;
            let lp_x: int = (token - s) * l / x1;
            let lp_y: int = q.swap_out_y * l / y1;
            &&& q.swap_in_x == s && q.swap_in_y == 0 && q.swap_out_x == 0
            &&& q.swap_out_y == g * pool.reserve_y * s / (10_000 * pool.reserve_x + g * s)
            &&& l > 0 && x1 > 0 && y1 > 0
            &&& q.lp_minted == (if lp_x < lp_y { lp_x } else { lp_y })
            &&& q.deposit_x == x1 * q.lp_minted / l
            &&& q.deposit_y == y1 * q.lp_minted / l
        },
        spec_deposit(pool, None, Some(token), Side::Y, min_lp) matches Ok(q) ==> {
            let s: int = token as int / 2;
            let g: int = 10_000 - pool.fee_bps;
            let l: int = pool.lp_supply as int;
            let x1: int = pool.reserve_x - q.swap_out_x;
            let y1: int = pool.reserve_y + s;
            let lp_x: int = q.swap_out_x * l / x1;
            let lp_y: int = (token - s) * l / y1;
            &&& q.swap_in_y == s && q.swap_in_x == 0 && q.swap_out_y == 0
            &&& q.swap_out_x == g * pool.reserve_x * s / (10_000 * pool.reserve_y + g * s)
            &&& l > 0 && x1 > 0 && y1 > 0
            &&& q.lp_minted == (if lp_x < lp_y { lp_x } else { lp_y })
            &&& q.deposit_x == x1 * q.lp_minted / l
            &&& q.deposit_y == y1 * q.lp_minted / l
        },
{
    if spec_deposit(pool, Some(token), None, Side::X, min_lp) is Ok {
        let s: u64 = token / 2;
        lemma_swap_out_raw_exact(pool.reserve_x as int, pool.reserve_y as int, s as int, pool.fee_bps);
        let y_out: u64 = spec_pool_swap_out(pool, s, Side::X)->Ok_0;
        let after = PoolState {
            reserve_x: (pool.reserve_x + s) as u64,
            reserve_y: (pool.reserve_y - y_out) as u64,
            lp_supply: pool.lp_supply,
            fee_bps: pool.fee_bps,
        };
        lemma_balanced_deposit_bounds(after, (token - s) as u64, y_out, min_lp);
    }
    if spec_deposit(pool, None, Some(token), Side::Y, min_lp) is Ok {
        let s: u64 = token / 2;
        lemma_swap_out_raw_exact(pool.reserve_y as int, pool.reserve_x as int, s as int, pool.fee_bps);
        let x_out: u64 = spec_pool_swap_out(pool, s, Side::Y)->Ok_0;
        let after = PoolState {
            reserve_x: (pool.reserve_x - x_out) as u64,
            reserve_y: (pool.reserve_y + s) as u64,
            lp_supply: pool.lp_supply,
            fee_bps: pool.fee_bps,
        };
        lemma_balanced_deposit_bounds(after, x_out, (token - s) as u64, min_lp);
    }
}

/// A successful single-sided withdraw of X takes the pro-rata shares `wx = x ΔL / L` and
/// `wy = y ΔL / L`, puts `wy` back as the input of an ordinary swap on the reduced reserves
/// `(x - wx, y - wy)`, which pays `γ (x - wx) wy / (10 000 (y - wy) + γ wy)` X
/// (`γ = 10 000 - fee_bps`) and never lowers the reduced pool's `k`, and pays out `wx`
/// plus that output. Y is the mirror.
pub proof fn law_single_sided_withdraw_formula(pool: PoolState, lp_amount: u64, min_x: u64, min_y: u64)
    ensures
        spec_withdraw(pool, lp_amount, Side::X, min_x, min_y) matches Ok(w) ==> {
            let g: int = 10_000 - pool.fee_bps;
            let x: int = pool.reserve_x as int;
            let y: int = pool.reserve_y as int;
            let wx: int = x * lp_amount / (pool.lp_supply as int);
            let wy: int = y * lp_amount / (pool.lp_supply as int);
            &&& w.pro_rata_x == wx && w.pro_rata_y == wy
            &&& w.swap_in_x == 0 && w.swap_in_y == wy && w.swap_out_y == 0
            &&& w.swap_out_x == g * (x - wx) * wy / (10_000 * (y - wy) + g * wy)
            &&& w.withdraw_x == wx + w.swap_out_x && w.withdraw_y == 0
            &&& (x - wx - w.swap_out_x) * y >= (x - wx) * (y - wy)
        },
        spec_withdraw(pool, lp_amount, Side::Y, min_x, min_y) matches Ok(w) ==> {
            let g: int = 10_000 - pool.fee_bps;
            let x: int = pool.reserve_x as int;
            let y: int = pool.reserve_y as int;
            let wx: int = x * lp_amount / (pool.lp_supply as int);
            let wy: int = y * lp_amount / (pool.lp_supply as int);
            &&& w.pro_rata_x == wx && w.pro_rata_y == wy
            &&& w.swap_in_y == 0 && w.swap_in_x == wx && w.swap_out_x == 0
            &&& w.swap_out_y == g * (y - wy) * wx / (10_000 * (x - wx) + g * wx)
            &&& w.withdraw_y == wy + w.swap_out_y && w.withdraw_x == 0
            &&& x * (y - wy - w.swap_out_y) >= (x - wx) * (y - wy)
        },
{
    if let Ok(w) = spec_withdraw(pool, lp_amount, Side::X, min_x, min_y) {
        lemma_pro_rata_bounds(pool.reserve_x, lp_amount, pool.lp_supply);
        lemma_pro_rata_bounds(pool.reserve_y, lp_amount, pool.lp_supply);
        let x: int = pool.reserve_x as int;
        let y: int = pool.reserve_y as int;
        let wx: int = pro_rata(pool.reserve_x, lp_amount, pool.lp_supply);
        let wy: int = pro_rata(pool.reserve_y, lp_amount, pool.lp_supply);
        lemma_swap_out_raw_exact(y - wy, x - wx, wy, pool.fee_bps);
        let out: int = w.swap_out_x as int;
        assert(out == curve_out(y - wy, x - wx, fee_factor(pool.fee_bps), wy));
        assert((x - wx - out) * y >= (x - wx) * (y - wy)) by (nonlinear_arith)
            requires
                out * (y - wy + wy) <= (x - wx) * wy,
        ;
    }
    if let Ok(w) = spec_withdraw(pool, lp_amount, Side::Y, min_x, min_y) {
        lemma_pro_rata_bounds(pool.reserve_x, lp_amount, pool.lp_supply);
        lemma_pro_rata_bounds(pool.reserve_y, lp_amount, pool.lp_supply);
        let x: int = pool.reserve_x as int;
        let y: int = pool.reserve_y as int;
        let wx: int = pro_rata(pool.reserve_x, lp_amount, pool.lp_supply);
        let wy: int = pro_rata(pool.reserve_y, lp_amount, pool.lp_supply);
        lemma_swap_out_raw_exact(x - wx, y - wy, wx, pool.fee_bps);
        let out: int = w.swap_out_y as int;
        assert(out == curve_out(x - wx, y - wy, fee_factor(pool.fee_bps), wx));
        assert(x * (y - wy - out) >= (x - wx) * (y - wy)) by (nonlinear_arith)
            requires
                out * (x - wx + wx) <= (y - wy) * wx,
        ;
    }
}

/// A successful swap takes its fee on the input: the fee is below 10 000 basis points and,
/// with `γ = 10 000 - fee_bps`, paying `a` into the reserve `r_in` yields exactly
/// `γ r_out a / (10 000 r_in + γ a)` of the other reserve `r_out`.
pub proof fn law_swap_fee_formula(pool: PoolState, amount_in: u64, side: Side, min_out: u64)
    ensures
        spec_swap(pool, amount_in, side, min_out) matches Ok(q) ==> {
            let g: int = 10_000 - pool.fee_bps;
            &&& pool.fee_bps < 10_000
            &&& side == Side::X ==> q.amount_out == g * pool.reserve_y * amount_in / (10_000
                * pool.reserve_x + g * amount_in)
            &&& side == Side::Y ==> q.amount_out == g * pool.reserve_x * amount_in / (10_000
                * pool.reserve_y + g * amount_in)
        },
{
    if spec_swap(pool, amount_in, side, min_out) is Ok {
        if side == Side::X {
            lemma_swap_out_raw_exact(pool.reserve_x as int, pool.reserve_y as int, amount_in as int, pool.fee_bps);
        } else {
            lemma_swap_out_raw_exact(pool.reserve_y as int, pool.reserve_x as int, amount_in as int, pool.fee_bps);
        }
    }
}

/// The curve's output never decreases as the fee factor grows.
proof fn lemma_curve_out_gamma_monotone(reserve_in: int, reserve_out: int, g_lo: int, g_hi: int, amount: int)
    requires
        reserve_in > 0,
        reserve_out >= 0,
        0 <= g_lo <= g_hi,
        amount >= 0,
    ensures
        curve_out(reserve_in, reserve_out, g_lo, amount) <= curve_out(reserve_in, reserve_out, g_hi, amount),
{
    let n_lo: int = g_lo * reserve_out * amount;
    let n_hi: int = g_hi * reserve_out * amount;
    let d_lo: int = 10_000 * reserve_in + g_lo * amount;
    let d_hi: int = 10_000 * reserve_in + g_hi * amount;
    let q: int = n_lo / d_lo;
    lemma_mul_le(0, 0, g_lo, amount);
    lemma_mul_le(g_lo, amount, g_hi, amount);
    lemma_mul_le(0, 0, g_lo * reserve_out, amount);
    lemma_mul_le(0, 0, g_lo, reserve_out);
    lemma_div_bounds(n_lo, d_lo);
    lemma_div_at_least(0, n_lo, d_lo);
    // n_lo * d_hi <= n_hi * d_lo: the difference is 10 000 * reserve_in * reserve_out * amount * (g_hi - g_lo)
    assert(n_lo * d_hi <= n_hi * d_lo) by (nonlinear_arith)
        requires
            n_lo == g_lo * reserve_out * amount,
            n_hi == g_hi * reserve_out * amount,
            d_lo == 10_000 * reserve_in + g_lo * amount,
            d_hi == 10_000 * reserve_in + g_hi * amount,
            reserve_in >= 0,
            reserve_out >= 0,
            0 <= g_lo <= g_hi,
            amount >= 0,
    ;
    assert(d_hi * q <= n_hi) by (nonlinear_arith)
        requires
            d_lo * q <= n_lo,
            n_lo * d_hi <= n_hi * d_lo,
            d_lo > 0,
            d_hi >= d_lo,
            q >= 0,
    ;
    lemma_div_at_least(q, n_hi, d_hi);
}

/// The same pool with another fee.
pub open spec fn with_fee(pool: PoolState, fee_bps: u16) -> PoolState {
    PoolState { reserve_x: pool.reserve_x, reserve_y: pool.reserve_y, lp_supply: pool.lp_supply, fee_bps }
}

/// A larger fee never pays more: the same swap on the same reserves yields no more output
/// under a fee of `higher_fee` than under the pool's own, smaller or equal, fee.
pub proof fn law_swap_fee_monotone(pool: PoolState, higher_fee: u16, amount_in: u64, side: Side, min_out: u64)
    requires
        pool.fee_bps <= higher_fee,
    ensures
        spec_swap(pool, amount_in, side, min_out) is Ok && spec_swap(with_fee(pool, higher_fee), amount_in, side, min_out) is Ok
            ==> spec_swap(with_fee(pool, higher_fee), amount_in, side, min_out)->Ok_0.amount_out <= spec_swap(
            pool,
            amount_in,
            side,
            min_out,
        )->Ok_0.amount_out,
{
    let dear = with_fee(pool, higher_fee);
    if spec_swap(pool, amount_in, side, min_out) is Ok && spec_swap(dear, amount_in, side, min_out) is Ok {
        law_swap_fee_formula(pool, amount_in, side, min_out);
        law_swap_fee_formula(dear, amount_in, side, min_out);
        let (rin, rout): (int, int) = if side == Side::X {
            (pool.reserve_x as int, pool.reserve_y as int)
        } else {
            (pool.reserve_y as int, pool.reserve_x as int)
        };
        lemma_curve_out_gamma_monotone(rin, rout, 10_000 - higher_fee, 10_000 - pool.fee_bps, amount_in as int);
    }
}

/// The floors of a withdraw only accept or refuse: with floors `(min_x, min_y)` a withdraw
/// returns exactly the quote it returns with no floors when that quote pays at least
/// `min_x` of X and `min_y` of Y, is refused for slippage when it pays less, and fails
/// with the same error otherwise.
pub proof fn law_withdraw_floors(pool: PoolState, lp_amount: u64, side: Side, min_x: u64, min_y: u64)
    ensures
        spec_withdraw(pool, lp_amount, side, min_x, min_y) == (match spec_withdraw(pool, lp_amount, side, 0, 0) {
            Ok(q) => if q.withdraw_x >= min_x && q.withdraw_y >= min_y {
                Ok::<WithdrawQuote, CpmmError>(q)
            } else {
                Err::<WithdrawQuote, CpmmError>(CpmmError::SlippageExceeded)
            },
            Err(e) => Err::<WithdrawQuote, CpmmError>(e),
        }),
{
}

/// The floor of a swap only accepts or refuses: with floor `min_out` a swap returns exactly
/// the quote it returns with no floor when that quote pays at least `min_out`, is refused
/// for slippage when it pays less, and fails with the same error otherwise.
pub proof fn law_swap_floor(pool: PoolState, amount_in: u64, side: Side, min_out: u64)
    ensures
        spec_swap(pool, amount_in, side, min_out) == (match spec_swap(pool, amount_in, side, 0) {
            Ok(q) => if q.amount_out >= min_out {
                Ok::<SwapQuote, CpmmError>(q)
            } else {
                Err::<SwapQuote, CpmmError>(CpmmError::SlippageExceeded)
            },
            Err(e) => Err::<SwapQuote, CpmmError>(e),
        }),
{
}


} // verus!
