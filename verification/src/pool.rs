//! Constant-product quotes on a snapshot of the pool's reserves.
use vstd::prelude::*;

use crate::arith::{lemma_div_at_least, lemma_div_below, lemma_mul_le, lemma_u64_product_fits};
use crate::error::{CpmmError, CpmmResult};
use crate::isqrt::{isqrt, lemma_floor_sqrt_unique};
use crate::model::{
    curve_fails, curve_out, fee_factor, spec_deposit, spec_deposit_balanced, spec_deposit_single_x,
    spec_deposit_single_y, spec_pool_swap_out, spec_swap, spec_swap_out_x_for_y, spec_swap_out_y_for_x, spec_withdraw,
    spec_withdraw_balanced, spec_withdraw_single_x, spec_withdraw_single_y,
};

verus! {

/// The basis-point denominator.
pub const BPS: u128 = 10_000;

/// Which token the caller pays (swap, single-sided deposit) or receives (single-sided
/// withdraw); `Balanced` for both.
#[derive(Clone, Copy, Debug, PartialEq, Eq, Structural)]
pub enum Side {
    X,
    Y,
    Balanced,
}

/// Snapshot of pool reserves at quote time.
#[derive(Clone, Copy, Debug, PartialEq, Eq, Structural)]
pub struct PoolState {
    pub reserve_x: u64,
    pub reserve_y: u64,
    pub lp_supply: u64,
    pub fee_bps: u16,
}

#[derive(Clone, Copy, Debug, PartialEq, Eq, Structural)]
pub struct SwapQuote {
    pub amount_in: u64,
    pub amount_out: u64,
}

#[derive(Clone, Copy, Debug, PartialEq, Eq, Structural)]
pub struct DepositQuote {
    pub lp_minted: u64,
    pub deposit_x: u64,
    pub deposit_y: u64,
    /// User → vault swap input (single-sided deposit).
    pub swap_in_x: u64,
    pub swap_in_y: u64,
    /// Vault → user swap output before the balanced deposit leg.
    pub swap_out_x: u64,
    pub swap_out_y: u64,
}

#[derive(Clone, Copy, Debug, PartialEq, Eq, Structural)]
pub struct WithdrawQuote {
    pub withdraw_x: u64,
    pub withdraw_y: u64,
    /// Pro-rata vault → user before the swap leg.
    pub pro_rata_x: u64,
    pub pro_rata_y: u64,
    /// User → vault swap input (single-sided withdraw).
    pub swap_in_x: u64,
    pub swap_in_y: u64,
    /// Vault → user swap output.
    pub swap_out_x: u64,
    pub swap_out_y: u64,
}

/// `γ * reserve_out * amount / (10 000 * reserve_in + γ * amount)` in checked
/// 128-bit arithmetic; `None` where an intermediate overflows or the divisor is zero.
fn checked_curve_out(reserve_in: u128, reserve_out: u128, amount: u128, gamma: u128) -> (r: Option<u128>)
    requires
        gamma <= 10_000,
        amount <= u64::MAX,
    ensures
        curve_fails(reserve_in as int, reserve_out as int, gamma as int, amount as int) ==> r is None,
        !curve_fails(reserve_in as int, reserve_out as int, gamma as int, amount as int) ==> r == Some(
            curve_out(reserve_in as int, reserve_out as int, gamma as int, amount as int) as u128,
        ),
{
    let scaled_out: u128 = match gamma.checked_mul(reserve_out) {
        Some(v) => v,
        None => return None,
    };
    let num: u128 = match scaled_out.checked_mul(amount) {
        Some(v) => v,
        None => return None,
    };
    let scaled_in: u128 = match BPS.checked_mul(reserve_in) {
        Some(v) => v,
        None => return None,
    };
    proof {
        lemma_mul_le(gamma as int, amount as int, 10_000, u64::MAX as int);
    }
    let fee_in: u128 = gamma * amount;
    let den: u128 = match scaled_in.checked_add(fee_in) {
        Some(v) => v,
        None => return None,
    };
    proof {
        assert(num == gamma * reserve_out * amount);
        if den > 0 {
            lemma_div_at_least(0, num as int, den as int);
            lemma_mul_le(1, num as int + 1, den as int, num as int + 1);
            lemma_div_below(num as int + 1, num as int, den as int);
        }
    }
    num.checked_div(den)
}

impl PoolState {
    pub fn new(reserve_x: u64, reserve_y: u64, lp_supply: u64, fee_bps: u16) -> (r: Self)
        ensures
            r == (PoolState { reserve_x, reserve_y, lp_supply, fee_bps }),
    {
        Self { reserve_x, reserve_y, lp_supply, fee_bps }
    }

    /// Constant-product swap with fee on input.
    ///
    /// Invariant: `k = x * y`. Fee factor `γ = (10_000 - fee_bps) / 10_000`.
    ///
    /// - `Side::X` (pay X, receive Y): `Δy = (γ * y * Δx) / (10_000 * x + γ * Δx)`
    /// - `Side::Y` (pay Y, receive X): `Δx = (γ * x * Δy) / (10_000 * y + γ * Δy)`
    ///
    /// Fails if `amount_out < min_out`.
    pub fn swap(&self, amount_in: u64, side: Side, min_out: u64) -> (r: CpmmResult<SwapQuote>)
        ensures
            r == spec_swap(*self, amount_in, side, min_out),
    {
        if !(amount_in > 0) {
            return Err(CpmmError::InvalidAmount);
        }
        if !matches!(side, Side::X | Side::Y) {
            return Err(CpmmError::InvalidAmount);
        }
        if !(self.reserve_x > 0 && self.reserve_y > 0) {
            return Err(CpmmError::ZeroBalance);
        }
        if !(self.fee_bps < 10_000) {
            return Err(CpmmError::InvalidFee);
        }
        let amount_out: u64 = self.swap_out(amount_in, side)?;
        if !(amount_out >= min_out) {
            return Err(CpmmError::SlippageExceeded);
        }
        Ok(SwapQuote { amount_in, amount_out })
    }

    /// Add liquidity and quote LP to mint.
    ///
    /// - `Side::Balanced` + `(Some(x), Some(y))`: double-sided deposit
    /// - `Side::X` + `(Some(x), None)`: swap half of X, then add balanced
    /// - `Side::Y` + `(None, Some(y))`: swap half of Y, then add balanced
    ///
    /// Fails if minted LP `< min_lp`.
    pub fn deposit(&self, token_x: Option<u64>, token_y: Option<u64>, side: Side, min_lp: u64) -> (r: CpmmResult<DepositQuote>)
        ensures
            r == spec_deposit(*self, token_x, token_y, side, min_lp),
    {
        if !(self.fee_bps < 10_000) {
            return Err(CpmmError::InvalidFee);
        }
        match (token_x, token_y, side) {
            (Some(x), Some(y), Side::Balanced) => self.deposit_balanced(x, y, min_lp),
            (Some(x), None, Side::X) => self.deposit_single_x(x, min_lp),
            (None, Some(y), Side::Y) => self.deposit_single_y(y, min_lp),
            _ => Err(CpmmError::InvalidAmount),
        }
    }

    /// Burn LP and quote token amounts returned.
    ///
    /// - `Side::Balanced`: pro-rata `Δx = x * ΔL / L`, `Δy = y * ΔL / L`
    /// - `Side::X` / `Side::Y`: pro-rata, then swap the undesired leg
    ///
    /// Fails if `withdraw_x < min_x` or `withdraw_y < min_y`.
    pub fn withdraw(&self, lp_amount: u64, side: Side, min_x: u64, min_y: u64) -> (r: CpmmResult<WithdrawQuote>)
        ensures
            r == spec_withdraw(*self, lp_amount, side, min_x, min_y),
    {
        if !(lp_amount > 0) {
            return Err(CpmmError::InvalidAmount);
        }
        if !(self.lp_supply > 0) {
            return Err(CpmmError::ZeroBalance);
        }
        if !(self.reserve_x > 0 && self.reserve_y > 0) {
            return Err(CpmmError::ZeroBalance);
        }
        let quote: WithdrawQuote = match side {
            Side::Balanced => self.withdraw_balanced(lp_amount)?,
            Side::X => self.withdraw_single_x(lp_amount)?,
            Side::Y => self.withdraw_single_y(lp_amount)?,
        };
        if !(quote.withdraw_x >= min_x) {
            return Err(CpmmError::SlippageExceeded);
        }
        if !(quote.withdraw_y >= min_y) {
            return Err(CpmmError::SlippageExceeded);
        }
        Ok(quote)
    }

    /// Fee numerator: `γ = 10_000 - fee_bps` (denominator is always `10_000`).
    fn gamma(&self) -> (r: CpmmResult<u128>)
        ensures
            self.fee_bps > 10_000 ==> r == Err::<u128, CpmmError>(CpmmError::InvalidFee),
            self.fee_bps <= 10_000 ==> r == Ok::<u128, CpmmError>(fee_factor(self.fee_bps) as u128),
    {
        BPS.checked_sub(self.fee_bps as u128).ok_or(CpmmError::InvalidFee)
    }

    /// Output amount for a swap; see [`Self::swap`] for formulas.
    fn swap_out(&self, amount_in: u64, side: Side) -> (r: CpmmResult<u64>)
        ensures
            r == spec_pool_swap_out(*self, amount_in, side),
    {
        let gamma: u128 = self.gamma()?;
        let x: u128 = self.reserve_x as u128;
        let y: u128 = self.reserve_y as u128;
        let amount: u128 = amount_in as u128;

        let out: u64 = match side {
            // Δx = (γ * x * Δy) / (10_000 * y + γ * Δy)
            Side::Y => checked_curve_out(y, x, amount, gamma).ok_or(CpmmError::Overflow)? as u64,
            // Δy = (γ * y * Δx) / (10_000 * x + γ * Δx)
            Side::X => checked_curve_out(x, y, amount, gamma).ok_or(CpmmError::Overflow)? as u64,
            Side::Balanced => return Err(CpmmError::InvalidAmount),
        };

        if !(out > 0) {
            return Err(CpmmError::InvalidAmount);
        }
        Ok(out)
    }

    /// Double-sided deposit at the current pool ratio.
    ///
    /// First mint (`lp_supply == 0`): `L = isqrt(x * y)`, deposit all of `token_x` / `token_y`.
    ///
    /// Later mints — limiting side wins (an empty reserve is refused with `ZeroBalance`,
    /// an `L` beyond 64 bits with `Overflow`):
    /// ```text
    /// L         = min(Δx * L_supply / x,  Δy * L_supply / y)
    /// deposit_x = L * x / L_supply
    /// deposit_y = L * y / L_supply
    /// ```
    fn deposit_balanced(&self, token_x: u64, token_y: u64, min_lp: u64) -> (r: CpmmResult<DepositQuote>)
        ensures
            r == spec_deposit_balanced(*self, token_x, token_y, min_lp),
    {
        if !(token_x > 0 && token_y > 0) {
            return Err(CpmmError::InvalidAmount);
        }

        if self.lp_supply == 0 {
            proof {
                lemma_u64_product_fits(token_x as int, token_y as int);
            }
            // L = sqrt(x * y)
            let root: u128 = isqrt(token_x as u128 * token_y as u128);
            proof {
                lemma_floor_sqrt_unique(token_x * token_y, root as int);
                if root > u64::MAX {
                    lemma_mul_le(u64::MAX as int + 1, u64::MAX as int + 1, root as int, root as int);
                }
            }
            let lp_minted: u64 = root as u64;
            if !(lp_minted >= min_lp) {
                return Err(CpmmError::SlippageExceeded);
            }
            if !(lp_minted > 0) {
                return Err(CpmmError::InvalidAmount);
            }
            return Ok(DepositQuote {
                lp_minted,
                deposit_x: token_x,
                deposit_y: token_y,
                swap_in_x: 0,
                swap_in_y: 0,
                swap_out_x: 0,
                swap_out_y: 0,
            });
        }

        let l: u128 = self.lp_supply as u128;
        let x: u128 = self.reserve_x as u128;
        let y: u128 = self.reserve_y as u128;
        let dx: u128 = token_x as u128;
        let dy: u128 = token_y as u128;
        proof {
            lemma_u64_product_fits(token_x as int, self.lp_supply as int);
            lemma_u64_product_fits(token_y as int, self.lp_supply as int);
        }

        if !(self.reserve_x > 0 && self.reserve_y > 0) {
            return Err(CpmmError::ZeroBalance);
        }

        // L = min(Δx * L / x, Δy * L / y)
        let lp_from_x: u128 = dx.checked_mul(l).ok_or(CpmmError::Overflow)?.checked_div(x).ok_or(
            CpmmError::Overflow,
        )?;
        let lp_from_y: u128 = dy.checked_mul(l).ok_or(CpmmError::Overflow)?.checked_div(y).ok_or(
            CpmmError::Overflow,
        )?;
        let lp: u128 = if lp_from_x < lp_from_y { lp_from_x } else { lp_from_y };
        if lp > u64::MAX as u128 {
            return Err(CpmmError::Overflow);
        }
        proof {
            // x * lp <= x * (Δx * L / x) <= Δx * L, and likewise for y
            crate::arith::lemma_div_bounds(dx * l, x as int);
            crate::arith::lemma_div_bounds(dy * l, y as int);
            lemma_mul_le(x as int, lp as int, x as int, lp_from_x as int);
            lemma_mul_le(y as int, lp as int, y as int, lp_from_y as int);
        }

        // deposit_x = L * x / L,  deposit_y = L * y / L
        let deposit_x_wide: u128 = x.checked_mul(lp).ok_or(CpmmError::Overflow)?.checked_div(l).ok_or(
            CpmmError::Overflow,
        )?;
        let deposit_y_wide: u128 = y.checked_mul(lp).ok_or(CpmmError::Overflow)?.checked_div(l).ok_or(
            CpmmError::Overflow,
        )?;
        proof {
            assert(x * lp < l * (dx + 1)) by (nonlinear_arith)
                requires
                    x * lp <= dx * l,
                    l > 0,
            ;
            lemma_div_below(dx + 1, x * lp, l as int);
            assert(y * lp < l * (dy + 1)) by (nonlinear_arith)
                requires
                    y * lp <= dy * l,
                    l > 0,
            ;
            lemma_div_below(dy + 1, y * lp, l as int);
        }
        let deposit_x: u64 = deposit_x_wide as u64;
        let deposit_y: u64 = deposit_y_wide as u64;
        let lp_minted: u64 = lp as u64;

        if !(lp_minted >= min_lp) {
            return Err(CpmmError::SlippageExceeded);
        }
        if !(deposit_x > 0 && deposit_y > 0) {
            return Err(CpmmError::InvalidAmount);
        }

        Ok(DepositQuote {
            lp_minted,
            deposit_x,
            deposit_y,
            swap_in_x: 0,
            swap_in_y: 0,
            swap_out_x: 0,
            swap_out_y: 0,
        })
    }

    /// Single-sided X deposit: swap `token_x / 2` for Y, then balanced-deposit the rest + Y out.
    fn deposit_single_x(&self, token_x: u64, min_lp: u64) -> (r: CpmmResult<DepositQuote>)
        requires
            self.fee_bps < 10_000,
        ensures
            r == spec_deposit_single_x(*self, token_x, min_lp),
    {
        if !(token_x > 1) {
            return Err(CpmmError::InvalidAmount);
        }
        if !(self.lp_supply > 0) {
            return Err(CpmmError::ZeroBalance);
        }

        let swap_amount: u64 = token_x / 2;
        let remaining_x: u64 = token_x - swap_amount;
        let y_out: u64 = self.swap_out(swap_amount, Side::X)?;

        let pool_after_swap = PoolState::new(
            self.reserve_x.checked_add(swap_amount).ok_or(CpmmError::Overflow)?,
            self.reserve_y.checked_sub(y_out).ok_or(CpmmError::Underflow)?,
            self.lp_supply,
            self.fee_bps,
        );

        let mut quote: DepositQuote = pool_after_swap.deposit_balanced(remaining_x, y_out, min_lp)?;
        quote.swap_in_x = swap_amount;
        quote.swap_out_y = y_out;
        Ok(quote)
    }

    /// Single-sided Y deposit: swap `token_y / 2` for X, then balanced-deposit the rest + X out.
    fn deposit_single_y(&self, token_y: u64, min_lp: u64) -> (r: CpmmResult<DepositQuote>)
        requires
            self.fee_bps < 10_000,
        ensures
            r == spec_deposit_single_y(*self, token_y, min_lp),
    {
        if !(token_y > 1) {
            return Err(CpmmError::InvalidAmount);
        }
        if !(self.lp_supply > 0) {
            return Err(CpmmError::ZeroBalance);
        }

        let swap_amount: u64 = token_y / 2;
        let remaining_y: u64 = token_y - swap_amount;
        let x_out: u64 = self.swap_out(swap_amount, Side::Y)?;

        let pool_after_swap = PoolState::new(
            self.reserve_x.checked_sub(x_out).ok_or(CpmmError::Underflow)?,
            self.reserve_y.checked_add(swap_amount).ok_or(CpmmError::Overflow)?,
            self.lp_supply,
            self.fee_bps,
        );

        let mut quote: DepositQuote = pool_after_swap.deposit_balanced(x_out, remaining_y, min_lp)?;
        quote.swap_in_y = swap_amount;
        quote.swap_out_x = x_out;
        Ok(quote)
    }

    /// Pro-rata withdraw: `Δx = x * ΔL / L`, `Δy = y * ΔL / L` (price unchanged up to
    /// rounding); a share beyond 64 bits is refused with `Overflow`.
    fn withdraw_balanced(&self, lp_amount: u64) -> (r: CpmmResult<WithdrawQuote>)
        requires
            self.lp_supply > 0,
        ensures
            r == spec_withdraw_balanced(*self, lp_amount),
    {
        let l: u128 = self.lp_supply as u128;
        let dl: u128 = lp_amount as u128;
        let x: u128 = self.reserve_x as u128;
        let y: u128 = self.reserve_y as u128;
        proof {
            lemma_u64_product_fits(self.reserve_x as int, lp_amount as int);
            lemma_u64_product_fits(self.reserve_y as int, lp_amount as int);
        }

        let share_x: u128 = x.checked_mul(dl).ok_or(CpmmError::Overflow)?.checked_div(l).ok_or(
            CpmmError::Overflow,
        )?;
        let share_y: u128 = y.checked_mul(dl).ok_or(CpmmError::Overflow)?.checked_div(l).ok_or(
            CpmmError::Overflow,
        )?;
        // a share beyond 64 bits (more LP burned than the supply) is refused, not wrapped
        if share_x > u64::MAX as u128 || share_y > u64::MAX as u128 {
            return Err(CpmmError::Overflow);
        }
        let withdraw_x: u64 = share_x as u64;
        let withdraw_y: u64 = share_y as u64;

        if !(withdraw_x > 0 && withdraw_y > 0) {
            return Err(CpmmError::InvalidAmount);
        }

        Ok(WithdrawQuote {
            withdraw_x,
            withdraw_y,
            pro_rata_x: withdraw_x,
            pro_rata_y: withdraw_y,
            swap_in_x: 0,
            swap_in_y: 0,
            swap_out_x: 0,
            swap_out_y: 0,
        })
    }

    /// Single-sided X withdraw.
    ///
    /// 1. Pro-rata: `wx0 = x * ΔL / L`, `wy = y * ΔL / L`
    /// 2. Swap `wy` on reduced reserves `(x - wx0, y - wy)` for additional X
    /// 3. Total X out: `wx0 + x_swap`
    fn withdraw_single_x(&self, lp_amount: u64) -> (r: CpmmResult<WithdrawQuote>)
        requires
            self.lp_supply > 0,
        ensures
            r == spec_withdraw_single_x(*self, lp_amount),
    {
        let l: u128 = self.lp_supply as u128;
        let dl: u128 = lp_amount as u128;
        let x: u128 = self.reserve_x as u128;
        let y: u128 = self.reserve_y as u128;
        proof {
            lemma_u64_product_fits(self.reserve_x as int, lp_amount as int);
            lemma_u64_product_fits(self.reserve_y as int, lp_amount as int);
        }

        let wx0: u128 = x.checked_mul(dl).ok_or(CpmmError::Overflow)?.checked_div(l).ok_or(CpmmError::Overflow)?;
        let wy: u128 = y.checked_mul(dl).ok_or(CpmmError::Overflow)?.checked_div(l).ok_or(CpmmError::Overflow)?;

        // reserves after removing pro-rata share (before swap)
        let x1: u128 = x.checked_sub(wx0).ok_or(CpmmError::Underflow)?;
        let y1: u128 = y.checked_sub(wy).ok_or(CpmmError::Underflow)?;

        let x_swap: u64 = swap_out_y_for_x(x1, y1, wy as u64, self.fee_bps)?;
        let total_x: u64 = wx0.checked_add(x_swap as u128).ok_or(CpmmError::Overflow)? as u64;

        if !(total_x > 0) {
            return Err(CpmmError::InvalidAmount);
        }

        Ok(WithdrawQuote {
            withdraw_x: total_x,
            withdraw_y: 0,
            pro_rata_x: wx0 as u64,
            pro_rata_y: wy as u64,
            swap_in_x: 0,
            swap_in_y: wy as u64,
            swap_out_x: x_swap,
            swap_out_y: 0,
        })
    }

    /// Single-sided Y withdraw.
    ///
    /// 1. Pro-rata: `wx = x * ΔL / L`, `wy0 = y * ΔL / L`
    /// 2. Swap `wx` on reduced reserves for additional Y
    /// 3. Total Y out: `wy0 + y_swap`
    fn withdraw_single_y(&self, lp_amount: u64) -> (r: CpmmResult<WithdrawQuote>)
        requires
            self.lp_supply > 0,
        ensures
            r == spec_withdraw_single_y(*self, lp_amount),
    {
        let l: u128 = self.lp_supply as u128;
        let dl: u128 = lp_amount as u128;
        let x: u128 = self.reserve_x as u128;
        let y: u128 = self.reserve_y as u128;
        proof {
            lemma_u64_product_fits(self.reserve_x as int, lp_amount as int);
            lemma_u64_product_fits(self.reserve_y as int, lp_amount as int);
        }

        let wx: u128 = x.checked_mul(dl).ok_or(CpmmError::Overflow)?.checked_div(l).ok_or(CpmmError::Overflow)?;
        let wy0: u128 = y.checked_mul(dl).ok_or(CpmmError::Overflow)?.checked_div(l).ok_or(CpmmError::Overflow)?;

        let x1: u128 = x.checked_sub(wx).ok_or(CpmmError::Underflow)?;
        let y1: u128 = y.checked_sub(wy0).ok_or(CpmmError::Underflow)?;

        let y_swap: u64 = swap_out_x_for_y(x1, y1, wx as u64, self.fee_bps)?;
        let total_y: u64 = wy0.checked_add(y_swap as u128).ok_or(CpmmError::Overflow)? as u64;

        if !(total_y > 0) {
            return Err(CpmmError::InvalidAmount);
        }

        Ok(WithdrawQuote {
            withdraw_x: 0,
            withdraw_y: total_y,
            pro_rata_x: wx as u64,
            pro_rata_y: wy0 as u64,
            swap_in_x: wx as u64,
            swap_in_y: 0,
            swap_out_x: 0,
            swap_out_y: y_swap,
        })
    }
}

/// Pay Y on reserves `(x, y)`, receive X: `Δx = (γ * x * Δy) / (10_000 * y + γ * Δy)`.
fn swap_out_y_for_x(x: u128, y: u128, amount_y: u64, fee_bps: u16) -> (r: CpmmResult<u64>)
    ensures
        r == spec_swap_out_y_for_x(x as int, y as int, amount_y as int, fee_bps),
{
    let gamma: u128 = BPS.checked_sub(fee_bps as u128).ok_or(CpmmError::InvalidFee)?;
    let dy: u128 = amount_y as u128;
    let out: u64 = checked_curve_out(y, x, dy, gamma).ok_or(CpmmError::Overflow)? as u64;
    Ok(out)
}

/// Pay X on reserves `(x, y)`, receive Y: `Δy = (γ * y * Δx) / (10_000 * x + γ * Δx)`.
fn swap_out_x_for_y(x: u128, y: u128, amount_x: u64, fee_bps: u16) -> (r: CpmmResult<u64>)
    ensures
        r == spec_swap_out_x_for_y(x as int, y as int, amount_x as int, fee_bps),
{
    let gamma: u128 = BPS.checked_sub(fee_bps as u128).ok_or(CpmmError::InvalidFee)?;
    let dx: u128 = amount_x as u128;
    let out: u64 = checked_curve_out(x, y, dx, gamma).ok_or(CpmmError::Overflow)? as u64;
    Ok(out)
}

} // verus!
