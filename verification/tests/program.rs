//! The pool program's instructions, carried out on a ledger of token balances.

use cpmm::program::{
    AmmError, BurnLp, Config, Deposit, InstructionRecord, OperationSide, PoolSnapshot, Swap, Transfer,
    UpdateConfig, WithdrawWithIntrospection,
};
use cpmm::{CpmmError, PoolState, Side};

const SEED: u64 = 123;
const FEE_BPS: u16 = 30;
const INITIAL_DEPOSIT: u64 = 100_000_000;

const PROGRAM_ID: [u8; 32] = [7; 32];
const BURN_DISCRIMINATOR: [u8; 8] = [33, 9, 170, 4, 250, 61, 12, 88];

fn key(tag: u8) -> [u8; 32] {
    let mut k = [0u8; 32];
    k[0] = tag;
    k[31] = 0xA5;
    k
}

fn burn_accounts() -> [[u8; 32]; 9] {
    [key(1), key(2), key(3), key(4), key(5), key(6), key(7), key(8), key(9)]
}

/// Balances of the pool's vaults, the LP mint, and one user's accounts.
struct Ledger {
    vault_x: u64,
    vault_y: u64,
    lp_supply: u64,
    user_x: u64,
    user_y: u64,
    user_lp: u64,
    config: Config,
    payer: [u8; 32],
}

impl Ledger {
    fn snapshot(&self) -> PoolSnapshot {
        PoolSnapshot {
            locked: self.config.locked,
            fee: self.config.fee,
            vault_x: self.vault_x,
            vault_y: self.vault_y,
            lp_supply: self.lp_supply,
        }
    }

    fn cpmm_pool(&self) -> PoolState {
        PoolState::new(self.vault_x, self.vault_y, self.user_lp, FEE_BPS)
    }

    fn apply(&mut self, transfers: &[Transfer]) {
        for t in transfers {
            match (t.is_x, t.to_vault) {
                (true, true) => {
                    self.user_x -= t.amount;
                    self.vault_x += t.amount;
                }
                (true, false) => {
                    self.vault_x -= t.amount;
                    self.user_x += t.amount;
                }
                (false, true) => {
                    self.user_y -= t.amount;
                    self.vault_y += t.amount;
                }
                (false, false) => {
                    self.vault_y -= t.amount;
                    self.user_y += t.amount;
                }
            }
        }
    }

    fn deposit(&mut self, token_x: Option<u64>, token_y: Option<u64>, side: OperationSide, min_lp: u64) -> Result<(), AmmError> {
        let plan = Deposit { pool: self.snapshot() }.deposit(token_x, token_y, side, min_lp)?;
        self.apply(&plan.transfers);
        self.lp_supply += plan.lp_to_mint;
        self.user_lp += plan.lp_to_mint;
        Ok(())
    }

    fn swap(&mut self, amount: u64, side: OperationSide, min_out: u64) -> Result<(), AmmError> {
        let transfers = Swap { pool: self.snapshot() }.swap(amount, side, min_out)?;
        self.apply(&transfers);
        Ok(())
    }

    fn update_config(&mut self, signer: [u8; 32], locked: bool, authority: Option<[u8; 32]>, fee: u16) -> Result<(), AmmError> {
        let mut accounts = UpdateConfig { user: signer, config: self.config };
        accounts.update(fee, authority, locked)?;
        self.config = accounts.config;
        Ok(())
    }

    fn withdraw_accounts(&self) -> WithdrawWithIntrospection {
        WithdrawWithIntrospection {
            pool: self.snapshot(),
            program_id: PROGRAM_ID,
            burn_discriminator: BURN_DISCRIMINATOR,
            burn_accounts: burn_accounts(),
        }
    }

    /// One transaction: an optional burn of `burn` LP, then the withdraw. On failure no
    /// balance changes.
    fn burn_and_withdraw(&mut self, burn: Option<u64>, lp_amount: u64, side: OperationSide, min_x: u64, min_y: u64) -> Result<(), AmmError> {
        let saved = (self.lp_supply, self.user_lp);
        let prior = match burn {
            Some(amount) => {
                let amount = BurnLp { locked: self.config.locked }.burn_lp_tokens(amount)?;
                self.user_lp -= amount;
                self.lp_supply -= amount;
                Some(burn_record(amount))
            }
            None => None,
        };
        match self.withdraw_accounts().withdraw_w_introspection(&prior, lp_amount, side, min_x, min_y) {
            Ok(transfers) => {
                self.apply(&transfers);
                Ok(())
            }
            Err(e) => {
                self.lp_supply = saved.0;
                self.user_lp = saved.1;
                Err(e)
            }
        }
    }
}

fn burn_record(amount: u64) -> InstructionRecord {
    let mut data = BURN_DISCRIMINATOR.to_vec();
    data.extend_from_slice(&amount.to_le_bytes());
    InstructionRecord { program_id: PROGRAM_ID, accounts: burn_accounts().to_vec(), data }
}

fn setup_initialized_pool() -> Ledger {
    let payer = key(1);
    let mut ledger = Ledger {
        vault_x: 0,
        vault_y: 0,
        lp_supply: 0,
        user_x: 1_000_000_000,
        user_y: 1_000_000_000,
        user_lp: 0,
        config: Config {
            seed: SEED,
            authority: Some(payer),
            mint_x: key(2),
            mint_y: key(3),
            fee: FEE_BPS,
            locked: false,
            config_bump: 255,
            lp_bump: 254,
        },
        payer,
    };
    ledger
        .deposit(Some(INITIAL_DEPOSIT), Some(INITIAL_DEPOSIT), OperationSide::Balanced, INITIAL_DEPOSIT)
        .expect("initialize + deposit");
    ledger
}

fn lock_pool(pool: &mut Ledger) {
    let payer = pool.payer;
    pool.update_config(payer, true, Some(payer), FEE_BPS).expect("lock pool");
}

#[test]
fn cpmm_error_maps_to_amm_error() {
    match AmmError::from(CpmmError::SlippageExceeded) {
        AmmError::SlippageLimitExceeded => {}
        other => panic!("unexpected mapping: {other:?}"),
    }
    match AmmError::from(CpmmError::InvalidFee) {
        AmmError::InvalidFeeAmount => {}
        other => panic!("unexpected mapping: {other:?}"),
    }
}

#[test]
fn test_deposit() {
    let pool = setup_initialized_pool();

    assert_eq!(pool.vault_x, INITIAL_DEPOSIT);
    assert_eq!(pool.vault_y, INITIAL_DEPOSIT);
    assert_eq!(pool.user_lp, INITIAL_DEPOSIT);
}

#[test]
fn test_withdraw() {
    let mut pool = setup_initialized_pool();
    let withdraw_amount = 25_000_000;

    assert_eq!(
        pool.burn_and_withdraw(None, withdraw_amount, OperationSide::Balanced, withdraw_amount, withdraw_amount),
        Err(AmmError::MissingPriorInstruction),
    );

    pool.burn_and_withdraw(Some(withdraw_amount), withdraw_amount, OperationSide::Balanced, withdraw_amount, withdraw_amount)
        .expect("Burn + withdraw -> OK");

    assert_eq!(pool.user_lp, INITIAL_DEPOSIT - withdraw_amount);
    assert_eq!(pool.vault_x, pool.vault_y);
}

#[test]
fn test_swap() {
    let mut pool = setup_initialized_pool();
    let user_x_before = pool.user_x;
    let user_y_before = pool.user_y;

    let swap_amount = 10_000_000;
    let min_amount = 9_000_000;

    pool.swap(swap_amount, OperationSide::X, min_amount).expect("swap");

    let y_from_swap = pool.user_y.saturating_add(INITIAL_DEPOSIT).saturating_sub(user_y_before);
    assert!(y_from_swap >= min_amount);

    assert_eq!(pool.user_x, user_x_before - swap_amount);

    let k_before = INITIAL_DEPOSIT as u128 * INITIAL_DEPOSIT as u128;
    let k_after = pool.vault_x as u128 * pool.vault_y as u128;
    assert!(k_after >= k_before);
    assert_eq!(pool.user_lp, INITIAL_DEPOSIT);
}

#[test]
fn test_update_config() {
    let mut pool = setup_initialized_pool();
    let new_admin = key(42);
    let payer = pool.payer;

    pool.update_config(payer, true, Some(new_admin), FEE_BPS * 2).expect("update config");

    assert_eq!(pool.config.authority, Some(new_admin));
    assert_eq!(pool.config.locked, true);
    assert_eq!(pool.config.fee, FEE_BPS * 2);
}

#[test]
fn test_locked_pool_rejects_swap() {
    let mut pool = setup_initialized_pool();
    lock_pool(&mut pool);

    assert_eq!(pool.swap(1_000_000, OperationSide::X, 0), Err(AmmError::PoolLocked));
}

#[test]
fn test_locked_pool_rejects_deposit() {
    let mut pool = setup_initialized_pool();
    lock_pool(&mut pool);

    assert_eq!(
        pool.deposit(Some(1_000_000), Some(1_000_000), OperationSide::Balanced, 0),
        Err(AmmError::PoolLocked),
    );
}

#[test]
fn test_locked_pool_rejects_withdraw() {
    let mut pool = setup_initialized_pool();
    lock_pool(&mut pool);

    assert_eq!(
        pool.burn_and_withdraw(None, 1_000_000, OperationSide::Balanced, 0, 0),
        Err(AmmError::PoolLocked),
    );
}

#[test]
fn test_swap_slippage_exceeded() {
    let mut pool = setup_initialized_pool();
    let swap_amount = 10_000_000;

    let cpmm_pool = PoolState::new(pool.vault_x, pool.vault_y, pool.user_lp, FEE_BPS);
    let quote = cpmm_pool.swap(swap_amount, Side::X, 0).expect("cpmm quote");

    assert_eq!(
        pool.swap(swap_amount, OperationSide::X, quote.amount_out + 1),
        Err(AmmError::SlippageLimitExceeded),
    );
}

#[test]
fn test_unauthorized_update_config() {
    let mut pool = setup_initialized_pool();
    let stranger = key(99);

    assert_eq!(
        pool.update_config(stranger, false, Some(stranger), FEE_BPS),
        Err(AmmError::Unauthorized),
    );
}

#[test]
fn test_second_deposit_mints_expected_lp() {
    let mut pool = setup_initialized_pool();
    let second_deposit = 1_000_000;

    let vault_x_before = pool.vault_x;
    let vault_y_before = pool.vault_y;
    let user_lp_before = pool.user_lp;

    pool.deposit(Some(second_deposit), Some(second_deposit), OperationSide::Balanced, second_deposit)
        .expect("second deposit");

    assert_eq!(pool.vault_x, vault_x_before + second_deposit);
    assert_eq!(pool.vault_y, vault_y_before + second_deposit);
    assert_eq!(pool.user_lp, user_lp_before + second_deposit);
}

#[test]
fn test_swap_y_for_x() {
    let mut pool = setup_initialized_pool();
    let user_x_before = pool.user_x;
    let user_y_before = pool.user_y;
    let swap_amount = 10_000_000;

    let quote = pool.cpmm_pool().swap(swap_amount, Side::Y, 0).expect("cpmm quote");

    pool.swap(swap_amount, OperationSide::Y, quote.amount_out).expect("swap Y for X");

    assert_eq!(pool.user_y, user_y_before - swap_amount);
    assert_eq!(pool.user_x, user_x_before + quote.amount_out);
    assert_eq!(pool.user_lp, INITIAL_DEPOSIT);
}

#[test]
fn test_imbalanced_balanced_deposit_keeps_excess_in_wallet() {
    let mut pool = setup_initialized_pool();
    let offered_x = 2_000_000;
    let offered_y = 1_000_000;

    let user_x_before = pool.user_x;
    let user_y_before = pool.user_y;
    let vault_x_before = pool.vault_x;
    let vault_y_before = pool.vault_y;
    let user_lp_before = pool.user_lp;

    let quote = pool
        .cpmm_pool()
        .deposit(Some(offered_x), Some(offered_y), Side::Balanced, 0)
        .expect("cpmm quote");

    pool.deposit(Some(offered_x), Some(offered_y), OperationSide::Balanced, 0).expect("imbalanced deposit");

    assert_eq!(pool.user_x, user_x_before - quote.deposit_x, "excess X should remain in the user wallet");
    assert_eq!(pool.user_y, user_y_before - quote.deposit_y);
    assert_eq!(pool.vault_x, vault_x_before + quote.deposit_x);
    assert_eq!(pool.vault_y, vault_y_before + quote.deposit_y);
    assert_eq!(pool.user_lp, user_lp_before + quote.lp_minted);
}

#[test]
fn test_single_sided_deposit_x_preserves_user_funds() {
    let mut pool = setup_initialized_pool();
    let token_x = 20_000_000;

    let user_x_before = pool.user_x;
    let user_y_before = pool.user_y;
    let vault_x_before = pool.vault_x;
    let vault_y_before = pool.vault_y;
    let user_lp_before = pool.user_lp;

    let quote = pool.cpmm_pool().deposit(Some(token_x), None, Side::X, 0).expect("cpmm quote");

    let user_x_spent = quote.swap_in_x + quote.deposit_x;
    assert!(user_x_spent <= token_x, "program must not pull more X than the user offered");

    pool.deposit(Some(token_x), None, OperationSide::X, 0).expect("single-sided X deposit");

    assert_eq!(pool.user_x, user_x_before - user_x_spent, "leftover X must stay with the user");
    assert_eq!(
        pool.user_y,
        user_y_before + quote.swap_out_y - quote.deposit_y,
        "unused swap output Y must stay with the user",
    );
    assert_eq!(pool.vault_x, vault_x_before + quote.swap_in_x + quote.deposit_x);
    assert_eq!(pool.vault_y, vault_y_before - quote.swap_out_y + quote.deposit_y);
    assert_eq!(pool.user_lp, user_lp_before + quote.lp_minted);
}

#[test]
fn test_single_sided_deposit_y_preserves_user_funds() {
    let mut pool = setup_initialized_pool();
    let token_y = 20_000_000;

    let user_x_before = pool.user_x;
    let user_y_before = pool.user_y;
    let vault_x_before = pool.vault_x;
    let vault_y_before = pool.vault_y;
    let user_lp_before = pool.user_lp;

    let quote = pool.cpmm_pool().deposit(None, Some(token_y), Side::Y, 0).expect("cpmm quote");

    let user_y_spent = quote.swap_in_y + quote.deposit_y;
    assert!(user_y_spent <= token_y);

    pool.deposit(None, Some(token_y), OperationSide::Y, 0).expect("single-sided Y deposit");

    assert_eq!(pool.user_x, user_x_before + quote.swap_out_x - quote.deposit_x);
    assert_eq!(pool.user_y, user_y_before - user_y_spent);
    assert_eq!(pool.vault_x, vault_x_before - quote.swap_out_x + quote.deposit_x);
    assert_eq!(pool.vault_y, vault_y_before + quote.swap_in_y + quote.deposit_y);
    assert_eq!(pool.user_lp, user_lp_before + quote.lp_minted);
}

#[test]
fn test_single_sided_withdraw_x_preserves_user_funds() {
    let mut pool = setup_initialized_pool();
    let lp_amount = 10_000_000;

    let user_x_before = pool.user_x;
    let user_y_before = pool.user_y;
    let vault_x_before = pool.vault_x;
    let vault_y_before = pool.vault_y;
    let user_lp_before = pool.user_lp;

    let quote = pool.cpmm_pool().withdraw(lp_amount, Side::X, 0, 0).expect("cpmm quote");

    pool.burn_and_withdraw(Some(lp_amount), lp_amount, OperationSide::X, 0, 0).expect("Burn + withdraw -> OK");

    assert_eq!(pool.user_x, user_x_before + quote.withdraw_x);
    assert_eq!(pool.user_y, user_y_before, "single-sided X withdraw must not strand Y in the user wallet");
    assert_eq!(pool.vault_x, vault_x_before - quote.withdraw_x);
    assert_eq!(
        pool.vault_y,
        vault_y_before,
        "pro-rata Y out and swap Y in cancel on single-sided X withdraw",
    );
    assert_eq!(pool.user_lp, user_lp_before - lp_amount);
}

#[test]
fn test_single_sided_withdraw_y_preserves_user_funds() {
    let mut pool = setup_initialized_pool();
    let lp_amount = 10_000_000;

    let user_x_before = pool.user_x;
    let user_y_before = pool.user_y;
    let vault_x_before = pool.vault_x;
    let vault_y_before = pool.vault_y;
    let user_lp_before = pool.user_lp;

    let quote = pool.cpmm_pool().withdraw(lp_amount, Side::Y, 0, 0).expect("cpmm quote");

    pool.burn_and_withdraw(Some(lp_amount), lp_amount, OperationSide::Y, 0, 0).expect("single-sided Y withdraw");

    assert_eq!(pool.user_x, user_x_before, "single-sided Y withdraw must not strand X in the user wallet");
    assert_eq!(pool.user_y, user_y_before + quote.withdraw_y);
    assert_eq!(
        pool.vault_x,
        vault_x_before,
        "pro-rata X out and swap X in cancel on single-sided Y withdraw",
    );
    assert_eq!(pool.vault_y, vault_y_before - quote.withdraw_y);
    assert_eq!(pool.user_lp, user_lp_before - lp_amount);
}

// --- the burn check in front of a withdraw ---

#[test]
fn withdraw_rejects_burn_from_another_program() {
    let pool = setup_initialized_pool();
    let mut record = burn_record(1_000_000);
    record.program_id = key(200);
    assert_eq!(
        pool.withdraw_accounts().withdraw_w_introspection(&Some(record), 1_000_000, OperationSide::Balanced, 0, 0).err(),
        Some(AmmError::InvalidProgramId),
    );
}

#[test]
fn withdraw_rejects_other_instruction_of_this_program() {
    let pool = setup_initialized_pool();
    let mut record = burn_record(1_000_000);
    record.data[3] ^= 1;
    assert_eq!(
        pool.withdraw_accounts().confirm_burn(&Some(record), 1_000_000),
        Err(AmmError::UnexpectedDiscriminator),
    );
}

#[test]
fn withdraw_rejects_burn_with_wrong_accounts() {
    let pool = setup_initialized_pool();
    let accounts = pool.withdraw_accounts();
    let mut record = burn_record(1_000_000);
    record.accounts.pop();
    assert_eq!(accounts.confirm_burn(&Some(record), 1_000_000), Err(AmmError::WrongAccountsCount));

    let mut record = burn_record(1_000_000);
    record.accounts[5] = key(77);
    assert_eq!(accounts.confirm_burn(&Some(record), 1_000_000), Err(AmmError::InvalidKey));
    assert_eq!(accounts.confrim_burn_accounts(&burn_accounts().to_vec()), Ok(()));
}

#[test]
fn withdraw_rejects_burn_with_bad_data() {
    let pool = setup_initialized_pool();
    let accounts = pool.withdraw_accounts();
    let mut record = burn_record(1_000_000);
    record.data.push(0);
    assert_eq!(accounts.confirm_burn(&Some(record), 1_000_000), Err(AmmError::InvalidDataLength));

    // the burn amount is read little-endian from bytes 8..16
    let record = burn_record(0x0102_0304_0506_0708);
    assert_eq!(accounts.confirm_burn(&Some(record), 0x0102_0304_0506_0708), Ok(()));
    let record = burn_record(1_000_000);
    assert_eq!(accounts.confirm_burn(&Some(record), 1_000_001), Err(AmmError::InvalidAmount));
}

#[test]
fn withdraw_quotes_on_supply_before_burn() {
    let mut pool = setup_initialized_pool();
    // burn a quarter of the supply; the quote uses the 100M supply from before the burn
    pool.burn_and_withdraw(Some(25_000_000), 25_000_000, OperationSide::Balanced, 0, 0).expect("withdraw");
    assert_eq!(pool.vault_x, 75_000_000);
    assert_eq!(pool.vault_y, 75_000_000);
    assert_eq!(pool.lp_supply, 75_000_000);
    assert_eq!(pool.user_x, 1_000_000_000 - INITIAL_DEPOSIT + 25_000_000);
}

#[test]
fn burn_is_refused_on_locked_pool() {
    assert_eq!(BurnLp { locked: true }.burn_lp_tokens(5), Err(AmmError::PoolLocked));
    assert_eq!(BurnLp { locked: false }.burn_lp_tokens(5), Ok(5));
}

#[test]
fn update_config_rejects_fee_at_bound() {
    let mut pool = setup_initialized_pool();
    let payer = pool.payer;
    assert_eq!(pool.update_config(payer, false, Some(payer), 10_000), Err(AmmError::InvalidFeeAmount));
    assert_eq!(pool.config.fee, FEE_BPS);
    pool.update_config(payer, false, None, 9_999).expect("renounce");
    assert_eq!(pool.config.authority, None);
    // with no authority the config can no longer change
    assert_eq!(pool.update_config(payer, true, Some(payer), 30), Err(AmmError::Unauthorized));
    assert_eq!(pool.config.locked, false);
}

#[test]
fn plans_list_transfers_in_order() {
    let pool = PoolSnapshot { locked: false, fee: 30, vault_x: 0, vault_y: 0, lp_supply: 0 };
    let plan = Deposit { pool }.deposit(Some(200), Some(800), OperationSide::Balanced, 0).expect("first mint");
    assert_eq!(plan.lp_to_mint, 400);
    assert_eq!(
        plan.transfers,
        vec![
            Transfer { is_x: true, to_vault: true, amount: 200 },
            Transfer { is_x: false, to_vault: true, amount: 800 },
        ]
    );
    let swap = Swap { pool: PoolSnapshot { locked: false, fee: 0, vault_x: 20, vault_y: 30, lp_supply: 0 } }
        .swap(5, OperationSide::X, 0)
        .expect("swap");
    assert_eq!(
        swap,
        vec![
            Transfer { is_x: true, to_vault: true, amount: 5 },
            Transfer { is_x: false, to_vault: false, amount: 6 },
        ]
    );
    // a zero leg is not transferred: the whole-supply X withdraw has no swap output
    let q = PoolState::new(1_000, 4_000, 100, 30).withdraw(100, Side::X, 0, 0).unwrap();
    assert_eq!(
        cpmm::program::withdraw_transfers(OperationSide::X, &q),
        vec![
            Transfer { is_x: true, to_vault: false, amount: 1_000 },
            Transfer { is_x: false, to_vault: false, amount: 4_000 },
            Transfer { is_x: false, to_vault: true, amount: 4_000 },
        ]
    );
}

#[test]
fn operation_side_maps_to_quote_side() {
    assert_eq!(Side::from(OperationSide::X), Side::X);
    assert_eq!(Side::from(OperationSide::Y), Side::Y);
    assert_eq!(Side::from(OperationSide::Balanced), Side::Balanced);
    assert_eq!(AmmError::from(CpmmError::InvalidAmount), AmmError::InvalidAmount);
    assert_eq!(AmmError::from(CpmmError::ZeroBalance), AmmError::ZeroBalance);
    assert_eq!(AmmError::from(CpmmError::Overflow), AmmError::Overflow);
    assert_eq!(AmmError::from(CpmmError::Underflow), AmmError::Underflow);
}

#[test]
fn withdraw_rejects_supply_overflow_and_maps_quote_errors() {
    let accounts = WithdrawWithIntrospection {
        pool: PoolSnapshot { locked: false, fee: 30, vault_x: 10, vault_y: 10, lp_supply: u64::MAX },
        program_id: PROGRAM_ID,
        burn_discriminator: BURN_DISCRIMINATOR,
        burn_accounts: burn_accounts(),
    };
    assert_eq!(
        accounts.withdraw_w_introspection(&Some(burn_record(1)), 1, OperationSide::Balanced, 0, 0),
        Err(AmmError::Overflow),
    );
    let pool = PoolSnapshot { locked: false, fee: 10_000, vault_x: 10, vault_y: 10, lp_supply: 10 };
    assert_eq!(
        Deposit { pool }.deposit(Some(5), Some(5), OperationSide::Balanced, 0).err(),
        Some(AmmError::InvalidFeeAmount),
    );
    let pool = PoolSnapshot { locked: false, fee: 30, vault_x: 100, vault_y: 100, lp_supply: 10 };
    assert_eq!(Swap { pool }.swap(0, OperationSide::X, 0), Err(AmmError::InvalidAmount));
}
