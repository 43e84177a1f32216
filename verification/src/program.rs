//! The decisions of the pool program's instructions, on plain values: which errors
//! the instructions raise, which token transfers they make, and how the pool's
//! configuration changes. Addresses are held as their 32 raw bytes.
use vstd::prelude::*;

use crate::error::CpmmError;
use crate::model::{spec_deposit, spec_swap, spec_withdraw};
use crate::pool::{DepositQuote, PoolState, Side, SwapQuote, WithdrawQuote};

verus! {

/// The program's errors.
#[derive(Clone, Copy, Debug, PartialEq, Eq, Structural)]
pub enum AmmError {
    CustomError,
    PoolLocked,
    InvalidPrecision,
    Overflow,
    Underflow,
    InvalidFeeAmount,
    InsufficientBalance,
    ZeroBalance,
    SlippageLimitExceeded,
    InvalidAmount,
    Unauthorized,
    InvalidProgramId,
    WrongAccountsCount,
    InvalidKey,
    InvalidDataLength,
    MissingPriorInstruction,
    UnexpectedDiscriminator,
}

/// How a quote error is reported by the program.
pub open spec fn amm_error_of(err: CpmmError) -> AmmError {
    match err {
        CpmmError::InvalidAmount => AmmError::InvalidAmount,
        CpmmError::ZeroBalance => AmmError::ZeroBalance,
        CpmmError::InvalidFee => AmmError::InvalidFeeAmount,
        CpmmError::SlippageExceeded => AmmError::SlippageLimitExceeded,
        CpmmError::Overflow => AmmError::Overflow,
        CpmmError::Underflow => AmmError::Underflow,
    }
}

impl From<CpmmError> for AmmError {
    fn from(err: CpmmError) -> (r: Self) {
        match err {
            CpmmError::InvalidAmount => AmmError::InvalidAmount,
            CpmmError::ZeroBalance => AmmError::ZeroBalance,
            CpmmError::InvalidFee => AmmError::InvalidFeeAmount,
            CpmmError::SlippageExceeded => AmmError::SlippageLimitExceeded,
            CpmmError::Overflow => AmmError::Overflow,
            CpmmError::Underflow => AmmError::Underflow,
        }
    }
}

impl vstd::std_specs::convert::FromSpecImpl<CpmmError> for AmmError {
    open spec fn obeys_from_spec() -> bool {
        true
    }

    open spec fn from_spec(err: CpmmError) -> AmmError {
        amm_error_of(err)
    }
}

/// The side argument of the program's instructions.
#[derive(Clone, Copy, Debug, PartialEq, Eq, Structural)]
pub enum OperationSide {
    X,
    Y,
    Balanced,
}

/// The quote side that an instruction side stands for.
pub open spec fn side_of(side: OperationSide) -> Side {
    match side {
        OperationSide::X => Side::X,
        OperationSide::Y => Side::Y,
        OperationSide::Balanced => Side::Balanced,
    }
}

impl From<OperationSide> for Side {
    fn from(value: OperationSide) -> (r: Self) {
        match value {
            OperationSide::X => Side::X,
            OperationSide::Y => Side::Y,
            OperationSide::Balanced => Side::Balanced,
        }
    }
}

impl vstd::std_specs::convert::FromSpecImpl<OperationSide> for Side {
    open spec fn obeys_from_spec() -> bool {
        true
    }

    open spec fn from_spec(value: OperationSide) -> Side {
        side_of(value)
    }
}

/// The pool's configuration account.
#[derive(Clone, Copy, Debug)]
pub struct Config {
    pub seed: u64,
    pub authority: Option<[u8; 32]>,
    pub mint_x: [u8; 32],
    pub mint_y: [u8; 32],
    pub fee: u16,
    pub locked: bool,
    pub config_bump: u8,
    pub lp_bump: u8,
}

/// What the pool instructions read: the config's lock and fee, both vault balances
/// and the LP mint's supply.
#[derive(Clone, Copy, Debug, PartialEq, Eq, Structural)]
pub struct PoolSnapshot {
    pub locked: bool,
    pub fee: u16,
    pub vault_x: u64,
    pub vault_y: u64,
    pub lp_supply: u64,
}

/// The quote pool of a snapshot.
pub open spec fn pool_of(s: PoolSnapshot) -> PoolState {
    PoolState { reserve_x: s.vault_x, reserve_y: s.vault_y, lp_supply: s.lp_supply, fee_bps: s.fee }
}

/// One token transfer between the user's account and the pool's vault.
#[derive(Clone, Copy, Debug, PartialEq, Eq, Structural)]
pub struct Transfer {
    /// Token X (else token Y).
    pub is_x: bool,
    /// User → vault (else vault → user).
    pub to_vault: bool,
    pub amount: u64,
}

/// A transfer that is made only when its amount is not zero.
pub open spec fn transfer_if(is_x: bool, to_vault: bool, amount: u64) -> Seq<Transfer> {
    if amount == 0 {
        Seq::empty()
    } else {
        seq![Transfer { is_x, to_vault, amount }]
    }
}

/// The change of the vault's balance of one token over a series of transfers.
pub open spec fn vault_delta(ts: Seq<Transfer>, is_x: bool) -> int
    decreases ts.len(),
{
    if ts.len() == 0 {
        0
    } else {
        let t = ts.last();
        vault_delta(ts.drop_last(), is_x) + if t.is_x != is_x {
            0
        } else if t.to_vault {
            t.amount as int
        } else {
            -(t.amount as int)
        }
    }
}

/// The change of the vault's balance of one token for a single transfer.
pub open spec fn leg(is_x: bool, to_vault: bool, amount: u64, token_is_x: bool) -> int {
    if is_x != token_is_x {
        0
    } else if to_vault {
        amount as int
    } else {
        -(amount as int)
    }
}

/// Appends a transfer unless its amount is zero.
fn push_transfer(transfers: &mut Vec<Transfer>, is_x: bool, to_vault: bool, amount: u64)
    ensures
        final(transfers)@ == old(transfers)@ + transfer_if(is_x, to_vault, amount),
        vault_delta(final(transfers)@, true) == vault_delta(old(transfers)@, true) + leg(
            is_x,
            to_vault,
            amount,
            true,
        ),
        vault_delta(final(transfers)@, false) == vault_delta(old(transfers)@, false) + leg(
            is_x,
            to_vault,
            amount,
            false,
        ),
{
    if amount == 0 {
        assert(old(transfers)@ + transfer_if(is_x, to_vault, amount) =~= old(transfers)@);
        return;
    }
    let ghost before = transfers@;
    transfers.push(Transfer { is_x, to_vault, amount });
    assert(transfers@.drop_last() =~= before);
    assert(before + transfer_if(is_x, to_vault, amount) =~= transfers@);
}

/// The transfers of a deposit, in order.
pub open spec fn spec_deposit_transfers(side: OperationSide, q: DepositQuote) -> Seq<Transfer> {
    match side {
        OperationSide::Balanced => transfer_if(true, true, q.deposit_x) + transfer_if(false, true, q.deposit_y),
        OperationSide::X => transfer_if(true, true, q.swap_in_x) + transfer_if(false, false, q.swap_out_y)
            + transfer_if(true, true, q.deposit_x) + transfer_if(false, true, q.deposit_y),
        OperationSide::Y => transfer_if(false, true, q.swap_in_y) + transfer_if(true, false, q.swap_out_x)
            + transfer_if(true, true, q.deposit_x) + transfer_if(false, true, q.deposit_y),
    }
}

/// The transfers that carry out a deposit quote: the swap leg (single-sided), then
/// the balanced deposit leg; zero amounts are skipped.
pub fn deposit_transfers(side: OperationSide, quote: &DepositQuote) -> (r: Vec<Transfer>)
    ensures
        r@ == spec_deposit_transfers(side, *quote),
        vault_delta(r@, true) == match side {
            OperationSide::Balanced => quote.deposit_x as int,
            OperationSide::X => quote.swap_in_x + quote.deposit_x,
            OperationSide::Y => quote.deposit_x - quote.swap_out_x,
        },
        vault_delta(r@, false) == match side {
            OperationSide::Balanced => quote.deposit_y as int,
            OperationSide::X => quote.deposit_y - quote.swap_out_y,
            OperationSide::Y => quote.swap_in_y + quote.deposit_y,
        },
{
    let mut transfers: Vec<Transfer> = Vec::new();
    assert(vault_delta(transfers@, true) == 0 && vault_delta(transfers@, false) == 0);
    match side {
        OperationSide::Balanced => {
            push_transfer(&mut transfers, true, true, quote.deposit_x);
            push_transfer(&mut transfers, false, true, quote.deposit_y);
        },
        OperationSide::X => {
            push_transfer(&mut transfers, true, true, quote.swap_in_x);
            push_transfer(&mut transfers, false, false, quote.swap_out_y);
            push_transfer(&mut transfers, true, true, quote.deposit_x);
            push_transfer(&mut transfers, false, true, quote.deposit_y);
        },
        OperationSide::Y => {
            push_transfer(&mut transfers, false, true, quote.swap_in_y);
            push_transfer(&mut transfers, true, false, quote.swap_out_x);
            push_transfer(&mut transfers, true, true, quote.deposit_x);
            push_transfer(&mut transfers, false, true, quote.deposit_y);
        },
    }
    assert(transfers@ =~= spec_deposit_transfers(side, *quote));
    transfers
}

/// The transfers of a withdraw, in order.
pub open spec fn spec_withdraw_transfers(side: OperationSide, q: WithdrawQuote) -> Seq<Transfer> {
    match side {
        OperationSide::Balanced => transfer_if(true, false, q.withdraw_x) + transfer_if(false, false, q.withdraw_y),
        _ => transfer_if(true, false, q.pro_rata_x) + transfer_if(false, false, q.pro_rata_y)
            + transfer_if(true, true, q.swap_in_x) + transfer_if(false, true, q.swap_in_y)
            + transfer_if(true, false, q.swap_out_x) + transfer_if(false, false, q.swap_out_y),
    }
}

/// The transfers that carry out a withdraw quote: the pro-rata payout, then (single
/// sided) the swap leg; zero amounts are skipped.
pub fn withdraw_transfers(side: OperationSide, quote: &WithdrawQuote) -> (r: Vec<Transfer>)
    ensures
        r@ == spec_withdraw_transfers(side, *quote),
        vault_delta(r@, true) == match side {
            OperationSide::Balanced => -(quote.withdraw_x as int),
            _ => quote.swap_in_x - quote.pro_rata_x - quote.swap_out_x,
        },
        vault_delta(r@, false) == match side {
            OperationSide::Balanced => -(quote.withdraw_y as int),
            _ => quote.swap_in_y - quote.pro_rata_y - quote.swap_out_y,
        },
{
    let mut transfers: Vec<Transfer> = Vec::new();
    assert(vault_delta(transfers@, true) == 0 && vault_delta(transfers@, false) == 0);
    match side {
        OperationSide::Balanced => {
            push_transfer(&mut transfers, true, false, quote.withdraw_x);
            push_transfer(&mut transfers, false, false, quote.withdraw_y);
        },
        OperationSide::X | OperationSide::Y => {
            push_transfer(&mut transfers, true, false, quote.pro_rata_x);
            push_transfer(&mut transfers, false, false, quote.pro_rata_y);
            push_transfer(&mut transfers, true, true, quote.swap_in_x);
            push_transfer(&mut transfers, false, true, quote.swap_in_y);
            push_transfer(&mut transfers, true, false, quote.swap_out_x);
            push_transfer(&mut transfers, false, false, quote.swap_out_y);
        },
    }
    assert(transfers@ =~= spec_withdraw_transfers(side, *quote));
    transfers
}

/// The transfers of a swap: the input into the vault, then the output to the user.
pub open spec fn spec_swap_transfers(side: OperationSide, q: SwapQuote) -> Seq<Transfer> {
    let is_x = side == OperationSide::X;
    seq![
        Transfer { is_x, to_vault: true, amount: q.amount_in },
        Transfer { is_x: !is_x, to_vault: false, amount: q.amount_out },
    ]
}

/// The deposit instruction's accounts, as the values it reads.
#[derive(Clone, Copy, Debug, PartialEq, Eq, Structural)]
pub struct Deposit {
    pub pool: PoolSnapshot,
}

/// What a deposit does: the transfers in order, then the LP to mint to the user.
pub struct DepositPlan {
    pub transfers: Vec<Transfer>,
    pub lp_to_mint: u64,
}

impl Deposit {
    /// Quote the deposit on the current vaults and LP supply and plan its transfers.
    pub fn deposit(&self, token_x: Option<u64>, token_y: Option<u64>, side: OperationSide, min_lp: u64) -> (r: Result<DepositPlan, AmmError>)
        ensures
            self.pool.locked ==> (r matches Err(e) && e == AmmError::PoolLocked),
            !self.pool.locked ==> match spec_deposit(pool_of(self.pool), token_x, token_y, side_of(side), min_lp) {
                Err(e) => (r matches Err(f) && f == amm_error_of(e)),
                Ok(q) => r matches Ok(plan) && plan.lp_to_mint == q.lp_minted && plan.transfers@
                    == spec_deposit_transfers(side, q),
            },
    {
        if self.pool.locked {
            return Err(AmmError::PoolLocked);
        }
        let pool = PoolState::new(self.pool.vault_x, self.pool.vault_y, self.pool.lp_supply, self.pool.fee);
        let quote = match pool.deposit(token_x, token_y, Side::from(side), min_lp) {
            Ok(q) => q,
            Err(e) => return Err(AmmError::from(e)),
        };
        let transfers = deposit_transfers(side, &quote);
        Ok(DepositPlan { transfers, lp_to_mint: quote.lp_minted })
    }
}

/// The swap instruction's accounts, as the values it reads.
#[derive(Clone, Copy, Debug, PartialEq, Eq, Structural)]
pub struct Swap {
    pub pool: PoolSnapshot,
}

impl Swap {
    /// Quote the swap on the current vaults and plan its two transfers.
    pub fn swap(&self, amount: u64, side: OperationSide, min_out: u64) -> (r: Result<Vec<Transfer>, AmmError>)
        ensures
            self.pool.locked ==> (r matches Err(e) && e == AmmError::PoolLocked),
            !self.pool.locked ==> match spec_swap(pool_of(self.pool), amount, side_of(side), min_out) {
                Err(e) => (r matches Err(f) && f == amm_error_of(e)),
                Ok(q) => r matches Ok(ts) && ts@ == spec_swap_transfers(side, q),
            },
    {
        if self.pool.locked {
            return Err(AmmError::PoolLocked);
        }
        let pool = PoolState::new(self.pool.vault_x, self.pool.vault_y, self.pool.lp_supply, self.pool.fee);
        let quote = match pool.swap(amount, Side::from(side), min_out) {
            Ok(q) => q,
            Err(e) => return Err(AmmError::from(e)),
        };
        let is_x: bool = matches!(side, OperationSide::X);
        let mut transfers: Vec<Transfer> = Vec::new();
        transfers.push(Transfer { is_x, to_vault: true, amount: quote.amount_in });
        transfers.push(Transfer { is_x: !is_x, to_vault: false, amount: quote.amount_out });
        assert(transfers@ =~= spec_swap_transfers(side, quote));
        Ok(transfers)
    }
}

/// The burn instruction's accounts, as the values it reads.
#[derive(Clone, Copy, Debug, PartialEq, Eq, Structural)]
pub struct BurnLp {
    pub locked: bool,
}

impl BurnLp {
    /// The LP amount to burn from the user's account; refused on a locked pool.
    pub fn burn_lp_tokens(&self, amount: u64) -> (r: Result<u64, AmmError>)
        ensures
            self.locked ==> (r matches Err(e) && e == AmmError::PoolLocked),
            !self.locked ==> (r matches Ok(a) && a == amount),
    {
        if self.locked {
            return Err(AmmError::PoolLocked);
        }
        Ok(amount)
    }
}

/// `user` is the authority recorded in a config.
pub open spec fn is_authority(authority: Option<[u8; 32]>, user: [u8; 32]) -> bool {
    authority matches Some(a) && a@ == user@
}

/// Whether two addresses are the same.
pub fn keys_equal(a: &[u8; 32], b: &[u8; 32]) -> (r: bool)
    ensures
        r == (a@ == b@),
{
    let mut i: usize = 0;
    while i < 32
        invariant
            i <= 32,
            forall|j: int| 0 <= j < i ==> a@[j] == b@[j],
        decreases 32 - i,
    {
        if a[i] != b[i] {
            return false;
        }
        i = i + 1;
    }
    assert(a@ =~= b@);
    true
}

/// The config-update instruction's accounts: the signer and the config.
#[derive(Clone, Copy, Debug)]
pub struct UpdateConfig {
    pub user: [u8; 32],
    pub config: Config,
}

impl UpdateConfig {
    /// Set the fee, the authority and the lock. Only the recorded authority may do so
    /// (a config without authority cannot change), and the fee must be below 10 000 bps.
    pub fn update(&mut self, fee: u16, authority: Option<[u8; 32]>, locked: bool) -> (r: Result<(), AmmError>)
        ensures
            fee >= 10_000 ==> (r matches Err(e) && e == AmmError::InvalidFeeAmount),
            fee < 10_000 && !is_authority(old(self).config.authority, old(self).user) ==> (r matches Err(
                e,
            ) && e == AmmError::Unauthorized),
            r is Err ==> final(self).user == old(self).user && final(self).config == old(self).config,
            fee < 10_000 && is_authority(old(self).config.authority, old(self).user) ==> {
                &&& r is Ok
                &&& final(self).user == old(self).user
                &&& final(self).config == (Config { fee, authority, locked, ..old(self).config })
            },
    {
        if !(fee < 10_000) {
            return Err(AmmError::InvalidFeeAmount);
        }
        let authorized: bool = match &self.config.authority {
            Some(a) => keys_equal(a, &self.user),
            None => false,
        };
        if !authorized {
            return Err(AmmError::Unauthorized);
        }
        self.config.fee = fee;
        self.config.authority = authority;
        self.config.locked = locked;
        Ok(())
    }
}

/// An instruction of the same transaction, as read from the instructions sysvar.
pub struct InstructionRecord {
    pub program_id: [u8; 32],
    /// The addresses of the accounts it references, in order.
    pub accounts: Vec<[u8; 32]>,
    pub data: Vec<u8>,
}

/// `256^k`.
pub open spec fn byte_scale(k: nat) -> nat
    decreases k,
{
    if k == 0 {
        1
    } else {
        256 * byte_scale((k - 1) as nat)
    }
}

proof fn lemma_byte_scale_monotone(a: nat, b: nat)
    requires
        a <= b,
    ensures
        1 <= byte_scale(a) <= byte_scale(b),
    decreases b,
{
    if b > 0 {
        if a < b {
            lemma_byte_scale_monotone(a, (b - 1) as nat);
        } else {
            lemma_byte_scale_monotone((b - 1) as nat, (b - 1) as nat);
        }
    }
}

/// The unsigned value of bytes read least significant first.
pub open spec fn le_value(bytes: Seq<u8>) -> nat
    decreases bytes.len(),
{
    if bytes.len() == 0 {
        0
    } else {
        (bytes[0] + 256 * le_value(bytes.drop_first())) as nat
    }
}

/// The little-endian `u64` in `data[start..start + 8]`.
fn le_u64_at(data: &Vec<u8>, start: usize) -> (v: u64)
    requires
        start + 8 <= data.len(),
    ensures
        v == le_value(data@.subrange(start as int, start + 8)),
{
    proof {
        reveal_with_fuel(byte_scale, 8);
        assert(byte_scale(7) == 0x100_0000_0000_0000);
    }
    let mut v: u64 = 0;
    let mut i: usize = 8;
    assert(data@.subrange(start + 8, start + 8) =~= Seq::<u8>::empty());
    while i > 0
        invariant
            i <= 8,
            start + 8 <= data.len(),
            v == le_value(data@.subrange(start + i, start + 8)),
            v < byte_scale((8 - i) as nat),
            byte_scale(7) == 0x100_0000_0000_0000,
        decreases i,
    {
        proof {
            lemma_byte_scale_monotone((8 - i) as nat, 7);
        }
        i = i - 1;
        let b: u8 = data[start + i];
        assert(data@.subrange(start + i, start + 8).drop_first() =~= data@.subrange(start + i + 1, start + 8));
        v = v * 256 + b as u64;
    }
    v
}

/// The withdraw instruction's accounts, as the values it reads: the pool, this
/// program's id, the burn instruction's discriminator and the nine accounts a burn in
/// front of the withdraw must reference (user, mint X, mint Y, config, LP mint, user's
/// LP account, token program, system program, associated-token program).
pub struct WithdrawWithIntrospection {
    pub pool: PoolSnapshot,
    pub program_id: [u8; 32],
    pub burn_discriminator: [u8; 8],
    pub burn_accounts: [[u8; 32]; 9],
}

impl WithdrawWithIntrospection {
    /// The burn instruction's accounts are exactly the expected nine, in order.
    pub open spec fn spec_confirm_burn_accounts(&self, accounts: Seq<[u8; 32]>) -> Result<(), AmmError> {
        if accounts.len() != 9 {
            Err(AmmError::WrongAccountsCount)
        } else if exists|i: int| 0 <= i < 9 && #[trigger] accounts[i]@ != self.burn_accounts@[i]@ {
            Err(AmmError::InvalidKey)
        } else {
            Ok(())
        }
    }

    /// The instruction in front of the withdraw is this program's burn of exactly `amount` LP.
    pub open spec fn spec_confirm_burn(&self, prior: Option<InstructionRecord>, amount: u64) -> Result<(), AmmError> {
        match prior {
            None => Err(AmmError::MissingPriorInstruction),
            Some(ix) => if ix.program_id@ != self.program_id@ {
                Err(AmmError::InvalidProgramId)
            } else if ix.data@.subrange(0, 8) != self.burn_discriminator@ {
                Err(AmmError::UnexpectedDiscriminator)
            } else if self.spec_confirm_burn_accounts(ix.accounts@) is Err {
                self.spec_confirm_burn_accounts(ix.accounts@)
            } else if ix.data.len() != 16 {
                Err(AmmError::InvalidDataLength)
            } else if le_value(ix.data@.subrange(8, 16)) != amount {
                Err(AmmError::InvalidAmount)
            } else {
                Ok(())
            },
        }
    }

    /// The whole withdraw: refused on a locked pool, then the burn check, then the quote on
    /// the LP supply before the burn, then its transfers.
    pub open spec fn spec_withdraw_w_introspection(
        &self,
        prior: Option<InstructionRecord>,
        lp_amount: u64,
        side: OperationSide,
        min_x: u64,
        min_y: u64,
    ) -> Result<Seq<Transfer>, AmmError> {
        if self.pool.locked {
            Err(AmmError::PoolLocked)
        } else {
            match self.spec_confirm_burn(prior, lp_amount) {
                Err(e) => Err(e),
                Ok(_) => if self.pool.lp_supply + lp_amount > u64::MAX {
                    Err(AmmError::Overflow)
                } else {
                    let pool = PoolState {
                        reserve_x: self.pool.vault_x,
                        reserve_y: self.pool.vault_y,
                        lp_supply: (self.pool.lp_supply + lp_amount) as u64,
                        fee_bps: self.pool.fee,
                    };
                    match spec_withdraw(pool, lp_amount, side_of(side), min_x, min_y) {
                        Err(e) => Err(amm_error_of(e)),
                        Ok(q) => Ok(spec_withdraw_transfers(side, q)),
                    }
                },
            }
        }
    }

    /// Withdraw after a burn in the same transaction: the instruction right before must
    /// burn exactly `lp_amount`; the quote uses the LP supply from before that burn.
    pub fn withdraw_w_introspection(
        &self,
        prior: &Option<InstructionRecord>,
        lp_amount: u64,
        side: OperationSide,
        min_x: u64,
        min_y: u64,
    ) -> (r: Result<Vec<Transfer>, AmmError>)
        requires
            !self.pool.locked && (*prior) is Some && (*prior)->Some_0.program_id@ == self.program_id@
                ==> (*prior)->Some_0.data.len() >= 8,
        ensures
            match self.spec_withdraw_w_introspection(*prior, lp_amount, side, min_x, min_y) {
                Err(e) => (r matches Err(f) && f == e),
                Ok(ts) => (r matches Ok(v) && v@ == ts),
            },
    {
        if self.pool.locked {
            return Err(AmmError::PoolLocked);
        }
        self.confirm_burn(prior, lp_amount)?;
        let supply_before_burn: u64 = match self.pool.lp_supply.checked_add(lp_amount) {
            Some(v) => v,
            None => return Err(AmmError::Overflow),
        };
        let pool = PoolState::new(self.pool.vault_x, self.pool.vault_y, supply_before_burn, self.pool.fee);
        let quote = match pool.withdraw(lp_amount, Side::from(side), min_x, min_y) {
            Ok(q) => q,
            Err(e) => return Err(AmmError::from(e)),
        };
        Ok(withdraw_transfers(side, &quote))
    }

    /// Check the instruction in front of the withdraw (see [`Self::spec_confirm_burn`]).
    /// An instruction of this program shorter than its 8-byte discriminator is outside
    /// the contract: reading that discriminator aborts.
    pub fn confirm_burn(&self, prior: &Option<InstructionRecord>, amount: u64) -> (r: Result<(), AmmError>)
        requires
            (*prior) is Some && (*prior)->Some_0.program_id@ == self.program_id@ ==> (*prior)->Some_0.data.len()
                >= 8,
        ensures
            r == self.spec_confirm_burn(*prior, amount),
    {
        let ix = match prior {
            Some(ix) => ix,
            None => return Err(AmmError::MissingPriorInstruction),
        };
        if !keys_equal(&ix.program_id, &self.program_id) {
            return Err(AmmError::InvalidProgramId);
        }
        let mut i: usize = 0;
        while i < 8
            invariant
                i <= 8,
                ix.data.len() >= 8,
                *prior == Some(*ix),
                ix.program_id@ == self.program_id@,
                forall|j: int| 0 <= j < i ==> ix.data@[j] == self.burn_discriminator@[j],
            decreases 8 - i,
        {
            if ix.data[i] != self.burn_discriminator[i] {
                assert(ix.data@.subrange(0, 8)[i as int] != self.burn_discriminator@[i as int]);
                return Err(AmmError::UnexpectedDiscriminator);
            }
            i = i + 1;
        }
        assert(ix.data@.subrange(0, 8) =~= self.burn_discriminator@);
        self.confrim_burn_accounts(&ix.accounts)?;
        if ix.data.len() != 16 {
            return Err(AmmError::InvalidDataLength);
        }
        let burn_amount: u64 = le_u64_at(&ix.data, 8);
        if burn_amount != amount {
            return Err(AmmError::InvalidAmount);
        }
        Ok(())
    }

    /// Check the accounts of the burn instruction (see [`Self::spec_confirm_burn_accounts`]).
    pub fn confrim_burn_accounts(&self, accounts: &Vec<[u8; 32]>) -> (r: Result<(), AmmError>)
        ensures
            r == self.spec_confirm_burn_accounts(accounts@),
    {
        if accounts.len() != 9 {
            return Err(AmmError::WrongAccountsCount);
        }
        let mut index: usize = 0;
        while index < 9
            invariant
                index <= 9,
                accounts.len() == 9,
                forall|j: int| 0 <= j < index ==> #[trigger] accounts@[j]@ == self.burn_accounts@[j]@,
            decreases 9 - index,
        {
            if !keys_equal(&accounts[index], &self.burn_accounts[index]) {
                assert(accounts@[index as int]@ != self.burn_accounts@[index as int]@);
                return Err(AmmError::InvalidKey);
            }
            index = index + 1;
        }
        Ok(())
    }
}

} // verus!
