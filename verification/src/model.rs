//! The mathematical model of every quote: each spec function states, over
//! unbounded integers, what the matching method returns.
use vstd::prelude::*;

use crate::error::CpmmError;
use crate::isqrt::floor_sqrt;
use crate::pool::{DepositQuote, PoolState, Side, SwapQuote, WithdrawQuote};

verus! {

/// Fee numerator `γ = 10 000 - fee_bps`; the denominator is always 10 000.
pub open spec fn fee_factor(fee_bps: u16) -> int {
    10_000 - fee_bps
}

/// Constant-product output with the fee taken on the input:
/// paying `amount` into the `reserve_in` side yields
/// `γ * reserve_out * amount / (10 000 * reserve_in + γ * amount)` of the other side.
pub open spec fn curve_out(reserve_in: int, reserve_out: int, gamma: int, amount: int) -> int {
    (gamma * reserve_out * amount) / (10_000 * reserve_in + gamma * amount)
}

/// Whether the checked 128-bit evaluation of [`curve_out`] fails: an intermediate
/// product or sum exceeds `u128::MAX`, or the divisor is zero.
pub open spec fn curve_fails(reserve_in: int, reserve_out: int, gamma: int, amount: int) -> bool {
    ||| gamma * reserve_out > u128::MAX
    ||| gamma * reserve_out * amount > u128::MAX
    ||| 10_000 * reserve_in > u128::MAX
    ||| 10_000 * reserve_in + gamma * amount > u128::MAX
    ||| 10_000 * reserve_in + gamma * amount == 0
}

/// A swap quote on arbitrary 128-bit reserves, as the composed withdraw legs compute it.
pub open spec fn spec_swap_out_raw(reserve_in: int, reserve_out: int, amount: int, fee_bps: u16) -> Result<u64, CpmmError> {
    let g = fee_factor(fee_bps);
    if fee_bps > 10_000 {
        Err(CpmmError::InvalidFee)
    } else if curve_fails(reserve_in, reserve_out, g, amount) {
        Err(CpmmError::Overflow)
    } else {
        Ok(curve_out(reserve_in, reserve_out, g, amount) as u64)
    }
}

/// Pay X on reserves `(x, y)`, receive Y.
pub open spec fn spec_swap_out_x_for_y(x: int, y: int, amount_x: int, fee_bps: u16) -> Result<u64, CpmmError> {
    spec_swap_out_raw(x, y, amount_x, fee_bps)
}

/// Pay Y on reserves `(x, y)`, receive X.
pub open spec fn spec_swap_out_y_for_x(x: int, y: int, amount_y: int, fee_bps: u16) -> Result<u64, CpmmError> {
    spec_swap_out_raw(y, x, amount_y, fee_bps)
}

/// The swap output of a pool for `side` (`X`: pay X, receive Y; `Y`: pay Y, receive X).
/// A zero output is refused.
pub open spec fn spec_pool_swap_out(pool: PoolState, amount: u64, side: Side) -> Result<u64, CpmmError> {
    if pool.fee_bps > 10_000 {
        Err(CpmmError::InvalidFee)
    } else {
        let raw = match side {
            Side::X => spec_swap_out_raw(pool.reserve_x as int, pool.reserve_y as int, amount as int, pool.fee_bps),
            Side::Y => spec_swap_out_raw(pool.reserve_y as int, pool.reserve_x as int, amount as int, pool.fee_bps),
            Side::Balanced => Err(CpmmError::InvalidAmount),
        };
        match raw {
            Ok(out) => if out > 0 { Ok(out) } else { Err(CpmmError::InvalidAmount) },
            Err(e) => Err(e),
        }
    }
}

/// [`PoolState::swap`]: checks in order, then the quote.
pub open spec fn spec_swap(pool: PoolState, amount_in: u64, side: Side, min_out: u64) -> Result<SwapQuote, CpmmError> {
    if amount_in == 0 || side == Side::Balanced {
        Err(CpmmError::InvalidAmount)
    } else if pool.reserve_x == 0 || pool.reserve_y == 0 {
        Err(CpmmError::ZeroBalance)
    } else if pool.fee_bps >= 10_000 {
        Err(CpmmError::InvalidFee)
    } else {
        match spec_pool_swap_out(pool, amount_in, side) {
            Err(e) => Err(e),
            Ok(out) => if out < min_out {
                Err(CpmmError::SlippageExceeded)
            } else {
                Ok(SwapQuote { amount_in, amount_out: out })
            },
        }
    }
}

/// The smaller of two integers.
pub open spec fn min_int(a: int, b: int) -> int {
    if a < b { a } else { b }
}

/// LP minted by a later balanced deposit: the limiting side wins,
/// `min(Δx * L / x, Δy * L / y)`.
pub open spec fn balanced_lp(pool: PoolState, token_x: u64, token_y: u64) -> int {
    min_int(
        token_x * pool.lp_supply / (pool.reserve_x as int),
        token_y * pool.lp_supply / (pool.reserve_y as int),
    )
}

/// A quote with no swap leg.
pub open spec fn plain_deposit(lp_minted: u64, deposit_x: u64, deposit_y: u64) -> DepositQuote {
    DepositQuote {
        lp_minted,
        deposit_x,
        deposit_y,
        swap_in_x: 0,
        swap_in_y: 0,
        swap_out_x: 0,
        swap_out_y: 0,
    }
}

/// Double-sided deposit. First mint (`lp_supply == 0`) mints `isqrt(Δx * Δy)` and takes
/// both amounts whole; later mints take `L * x / L_supply` and `L * y / L_supply` for the
/// LP amount `L` of [`balanced_lp`]. An empty reserve with LP outstanding is refused
/// (`ZeroBalance`), and so is an `L` that does not fit in 64 bits (`Overflow`).
pub open spec fn spec_deposit_balanced(pool: PoolState, token_x: u64, token_y: u64, min_lp: u64) -> Result<DepositQuote, CpmmError> {
    if token_x == 0 || token_y == 0 {
        Err(CpmmError::InvalidAmount)
    } else if pool.lp_supply == 0 {
        let lp = floor_sqrt(token_x * token_y);
        if lp < min_lp {
            Err(CpmmError::SlippageExceeded)
        } else if lp == 0 {
            Err(CpmmError::InvalidAmount)
        } else {
            Ok(plain_deposit(lp as u64, token_x, token_y))
        }
    } else if pool.reserve_x == 0 || pool.reserve_y == 0 {
        Err(CpmmError::ZeroBalance)
    } else if balanced_lp(pool, token_x, token_y) > u64::MAX {
        Err(CpmmError::Overflow)
    } else {
        let lp = balanced_lp(pool, token_x, token_y);
        let dx = pool.reserve_x * lp / (pool.lp_supply as int);
        let dy = pool.reserve_y * lp / (pool.lp_supply as int);
        if lp < min_lp {
            Err(CpmmError::SlippageExceeded)
        } else if dx == 0 || dy == 0 {
            Err(CpmmError::InvalidAmount)
        } else {
            Ok(plain_deposit(lp as u64, dx as u64, dy as u64))
        }
    }
}

/// Single-sided X deposit: swap `token_x / 2` for Y, then deposit the rest of X and
/// all the Y received, balanced, at the post-swap reserves.
pub open spec fn spec_deposit_single_x(pool: PoolState, token_x: u64, min_lp: u64) -> Result<DepositQuote, CpmmError> {
    if token_x <= 1 {
        Err(CpmmError::InvalidAmount)
    } else if pool.lp_supply == 0 {
        Err(CpmmError::ZeroBalance)
    } else {
        let swap_amount = token_x / 2;
        let remaining = token_x - swap_amount;
        match spec_pool_swap_out(pool, swap_amount as u64, Side::X) {
            Err(e) => Err(e),
            Ok(y_out) => if pool.reserve_x + swap_amount > u64::MAX {
                Err(CpmmError::Overflow)
            } else if pool.reserve_y < y_out {
                Err(CpmmError::Underflow)
            } else {
                let after = PoolState {
                    reserve_x: (pool.reserve_x + swap_amount) as u64,
                    reserve_y: (pool.reserve_y - y_out) as u64,
                    lp_supply: pool.lp_supply,
                    fee_bps: pool.fee_bps,
                };
                match spec_deposit_balanced(after, remaining as u64, y_out, min_lp) {
                    Err(e) => Err(e),
                    Ok(q) => Ok(DepositQuote { swap_in_x: swap_amount as u64, swap_out_y: y_out, ..q }),
                }
            },
        }
    }
}

/// Single-sided Y deposit, the mirror of [`spec_deposit_single_x`].
pub open spec fn spec_deposit_single_y(pool: PoolState, token_y: u64, min_lp: u64) -> Result<DepositQuote, CpmmError> {
    if token_y <= 1 {
        Err(CpmmError::InvalidAmount)
    } else if pool.lp_supply == 0 {
        Err(CpmmError::ZeroBalance)
    } else {
        let swap_amount = token_y / 2;
        let remaining = token_y - swap_amount;
        match spec_pool_swap_out(pool, swap_amount as u64, Side::Y) {
            Err(e) => Err(e),
            Ok(x_out) => if pool.reserve_x < x_out {
                Err(CpmmError::Underflow)
            } else if pool.reserve_y + swap_amount > u64::MAX {
                Err(CpmmError::Overflow)
            } else {
                let after = PoolState {
                    reserve_x: (pool.reserve_x - x_out) as u64,
                    reserve_y: (pool.reserve_y + swap_amount) as u64,
                    lp_supply: pool.lp_supply,
                    fee_bps: pool.fee_bps,
                };
                match spec_deposit_balanced(after, x_out, remaining as u64, min_lp) {
                    Err(e) => Err(e),
                    Ok(q) => Ok(DepositQuote { swap_in_y: swap_amount as u64, swap_out_x: x_out, ..q }),
                }
            },
        }
    }
}

/// [`PoolState::deposit`].
pub open spec fn spec_deposit(pool: PoolState, token_x: Option<u64>, token_y: Option<u64>, side: Side, min_lp: u64) -> Result<DepositQuote, CpmmError> {
    if pool.fee_bps >= 10_000 {
        Err(CpmmError::InvalidFee)
    } else {
        match (token_x, token_y, side) {
            (Some(x), Some(y), Side::Balanced) => spec_deposit_balanced(pool, x, y, min_lp),
            (Some(x), None, Side::X) => spec_deposit_single_x(pool, x, min_lp),
            (None, Some(y), Side::Y) => spec_deposit_single_y(pool, y, min_lp),
            _ => Err(CpmmError::InvalidAmount),
        }
    }
}

/// Pro-rata share `reserve * ΔL / L` of one reserve.
pub open spec fn pro_rata(reserve: u64, lp_amount: u64, lp_supply: u64) -> int {
    reserve * lp_amount / (lp_supply as int)
}

/// Balanced withdraw: both pro-rata shares, each of which must fit in 64 bits
/// (`Overflow` otherwise, possible only when more than the supply is burned) and be positive.
pub open spec fn spec_withdraw_balanced(pool: PoolState, lp_amount: u64) -> Result<WithdrawQuote, CpmmError> {
    let px = pro_rata(pool.reserve_x, lp_amount, pool.lp_supply);
    let py = pro_rata(pool.reserve_y, lp_amount, pool.lp_supply);
    let wx = px as u64;
    let wy = py as u64;
    if px > u64::MAX || py > u64::MAX {
        Err(CpmmError::Overflow)
    } else if wx == 0 || wy == 0 {
        Err(CpmmError::InvalidAmount)
    } else {
        Ok(WithdrawQuote {
            withdraw_x: wx,
            withdraw_y: wy,
            pro_rata_x: wx,
            pro_rata_y: wy,
            swap_in_x: 0,
            swap_in_y: 0,
            swap_out_x: 0,
            swap_out_y: 0,
        })
    }
}

/// Single-sided X withdraw: the pro-rata Y share is swapped for X on the reserves
/// left after the pro-rata withdraw.
pub open spec fn spec_withdraw_single_x(pool: PoolState, lp_amount: u64) -> Result<WithdrawQuote, CpmmError> {
    let wx0 = pro_rata(pool.reserve_x, lp_amount, pool.lp_supply);
    let wy = pro_rata(pool.reserve_y, lp_amount, pool.lp_supply);
    if wx0 > pool.reserve_x || wy > pool.reserve_y {
        Err(CpmmError::Underflow)
    } else {
        match spec_swap_out_raw(pool.reserve_y - wy, pool.reserve_x - wx0, wy, pool.fee_bps) {
            Err(e) => Err(e),
            Ok(x_swap) => {
                let total = (wx0 + x_swap) as u64;
                if total == 0 {
                    Err(CpmmError::InvalidAmount)
                } else {
                    Ok(WithdrawQuote {
                        withdraw_x: total,
                        withdraw_y: 0,
                        pro_rata_x: wx0 as u64,
                        pro_rata_y: wy as u64,
                        swap_in_x: 0,
                        swap_in_y: wy as u64,
                        swap_out_x: x_swap,
                        swap_out_y: 0,
                    })
                }
            },
        }
    }
}

/// Single-sided Y withdraw, the mirror of [`spec_withdraw_single_x`].
pub open spec fn spec_withdraw_single_y(pool: PoolState, lp_amount: u64) -> Result<WithdrawQuote, CpmmError> {
    let wx = pro_rata(pool.reserve_x, lp_amount, pool.lp_supply);
    let wy0 = pro_rata(pool.reserve_y, lp_amount, pool.lp_supply);
    if wx > pool.reserve_x || wy0 > pool.reserve_y {
        Err(CpmmError::Underflow)
    } else {
        match spec_swap_out_raw(pool.reserve_x - wx, pool.reserve_y - wy0, wx, pool.fee_bps) {
            Err(e) => Err(e),
            Ok(y_swap) => {
                let total = (wy0 + y_swap) as u64;
                if total == 0 {
                    Err(CpmmError::InvalidAmount)
                } else {
                    Ok(WithdrawQuote {
                        withdraw_x: 0,
                        withdraw_y: total,
                        pro_rata_x: wx as u64,
                        pro_rata_y: wy0 as u64,
                        swap_in_x: wx as u64,
                        swap_in_y: 0,
                        swap_out_x: 0,
                        swap_out_y: y_swap,
                    })
                }
            },
        }
    }
}

/// [`PoolState::withdraw`].
pub open spec fn spec_withdraw(pool: PoolState, lp_amount: u64, side: Side, min_x: u64, min_y: u64) -> Result<WithdrawQuote, CpmmError> {
    if lp_amount == 0 {
        Err(CpmmError::InvalidAmount)
    } else if pool.lp_supply == 0 || pool.reserve_x == 0 || pool.reserve_y == 0 {
        Err(CpmmError::ZeroBalance)
    } else {
        let quote = match side {
            Side::Balanced => spec_withdraw_balanced(pool, lp_amount),
            Side::X => spec_withdraw_single_x(pool, lp_amount),
            Side::Y => spec_withdraw_single_y(pool, lp_amount),
        };
        match quote {
            Err(e) => Err(e),
            Ok(q) => if q.withdraw_x < min_x || q.withdraw_y < min_y {
                Err(CpmmError::SlippageExceeded)
            } else {
                Ok(q)
            },
        }
    }
}

} // verus!
