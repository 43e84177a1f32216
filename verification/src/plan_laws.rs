//! Properties of the program's instructions, over the transfers they make.
use vstd::prelude::*;

use crate::laws::{
    law_balanced_deposit_within_offer, law_balanced_withdraw_pro_rata,
    law_single_sided_deposit_within_offer, law_single_sided_withdraw, law_swap_keeps_k,
    law_withdraw_floors,
};
use crate::model::{spec_deposit, spec_swap, spec_withdraw};
use crate::pool::{DepositQuote, PoolState, WithdrawQuote};
use crate::program::{
    le_value, leg, pool_of, side_of, spec_deposit_transfers, spec_swap_transfers,
    spec_withdraw_transfers, transfer_if, vault_delta, AmmError, InstructionRecord, OperationSide,
    PoolSnapshot, Transfer, WithdrawWithIntrospection,
};

verus! {

/// Appending a transfer moves the vault's balance by that transfer's leg.
pub proof fn lemma_vault_delta_append(a: Seq<Transfer>, is_x: bool, to_vault: bool, amount: u64, token_is_x: bool)
    ensures
        vault_delta(a + transfer_if(is_x, to_vault, amount), token_is_x) == vault_delta(a, token_is_x) + leg(
            is_x,
            to_vault,
            amount,
            token_is_x,
        ),
{
    let t = Transfer { is_x, to_vault, amount };
    if amount == 0 {
        assert(a + transfer_if(is_x, to_vault, amount) =~= a);
    } else {
        assert((a + transfer_if(is_x, to_vault, amount)).drop_last() =~= a);
        assert((a + transfer_if(is_x, to_vault, amount)).last() == t);
    }
}

/// The vault's balance changes of a deposit's transfers.
pub proof fn lemma_deposit_transfer_deltas(side: OperationSide, q: DepositQuote)
    ensures
        vault_delta(spec_deposit_transfers(side, q), true) == match side {
            OperationSide::Balanced => q.deposit_x as int,
            OperationSide::X => q.swap_in_x + q.deposit_x,
            OperationSide::Y => q.deposit_x - q.swap_out_x,
        },
        vault_delta(spec_deposit_transfers(side, q), false) == match side {
            OperationSide::Balanced => q.deposit_y as int,
            OperationSide::X => q.deposit_y - q.swap_out_y,
            OperationSide::Y => q.swap_in_y + q.deposit_y,
        },
{
    let e = Seq::<Transfer>::empty();
    match side {
        OperationSide::Balanced => {
            let s1 = transfer_if(true, true, q.deposit_x);
            assert(e + s1 =~= s1);
            lemma_vault_delta_append(e, true, true, q.deposit_x, true);
            lemma_vault_delta_append(e, true, true, q.deposit_x, false);
            lemma_vault_delta_append(s1, false, true, q.deposit_y, true);
            lemma_vault_delta_append(s1, false, true, q.deposit_y, false);
        },
        OperationSide::X => {
            let s1 = transfer_if(true, true, q.swap_in_x);
            let s2 = s1 + transfer_if(false, false, q.swap_out_y);
            let s3 = s2 + transfer_if(true, true, q.deposit_x);
            assert(e + s1 =~= s1);
            lemma_vault_delta_append(e, true, true, q.swap_in_x, true);
            lemma_vault_delta_append(e, true, true, q.swap_in_x, false);
            lemma_vault_delta_append(s1, false, false, q.swap_out_y, true);
            lemma_vault_delta_append(s1, false, false, q.swap_out_y, false);
            lemma_vault_delta_append(s2, true, true, q.deposit_x, true);
            lemma_vault_delta_append(s2, true, true, q.deposit_x, false);
            lemma_vault_delta_append(s3, false, true, q.deposit_y, true);
            lemma_vault_delta_append(s3, false, true, q.deposit_y, false);
        },
        OperationSide::Y => {
            let s1 = transfer_if(false, true, q.swap_in_y);
            let s2 = s1 + transfer_if(true, false, q.swap_out_x);
            let s3 = s2 + transfer_if(true, true, q.deposit_x);
            assert(e + s1 =~= s1);
            lemma_vault_delta_append(e, false, true, q.swap_in_y, true);
            lemma_vault_delta_append(e, false, true, q.swap_in_y, false);
            lemma_vault_delta_append(s1, true, false, q.swap_out_x, true);
            lemma_vault_delta_append(s1, true, false, q.swap_out_x, false);
            lemma_vault_delta_append(s2, true, true, q.deposit_x, true);
            lemma_vault_delta_append(s2, true, true, q.deposit_x, false);
            lemma_vault_delta_append(s3, false, true, q.deposit_y, true);
            lemma_vault_delta_append(s3, false, true, q.deposit_y, false);
        },
    }
}

/// The vault's balance changes of a withdraw's transfers.
pub proof fn lemma_withdraw_transfer_deltas(side: OperationSide, q: WithdrawQuote)
    ensures
        vault_delta(spec_withdraw_transfers(side, q), true) == match side {
            OperationSide::Balanced => -(q.withdraw_x as int),
            _ => q.swap_in_x - q.pro_rata_x - q.swap_out_x,
        },
        vault_delta(spec_withdraw_transfers(side, q), false) == match side {
            OperationSide::Balanced => -(q.withdraw_y as int),
            _ => q.swap_in_y - q.pro_rata_y - q.swap_out_y,
        },
{
    let e = Seq::<Transfer>::empty();
    match side {
        OperationSide::Balanced => {
            let s1 = transfer_if(true, false, q.withdraw_x);
            assert(e + s1 =~= s1);
            lemma_vault_delta_append(e, true, false, q.withdraw_x, true);
            lemma_vault_delta_append(e, true, false, q.withdraw_x, false);
            lemma_vault_delta_append(s1, false, false, q.withdraw_y, true);
            lemma_vault_delta_append(s1, false, false, q.withdraw_y, false);
        },
        _ => {
            let s1 = transfer_if(true, false, q.pro_rata_x);
            let s2 = s1 + transfer_if(false, false, q.pro_rata_y);
            let s3 = s2 + transfer_if(true, true, q.swap_in_x);
            let s4 = s3 + transfer_if(false, true, q.swap_in_y);
            let s5 = s4 + transfer_if(true, false, q.swap_out_x);
            assert(e + s1 =~= s1);
            lemma_vault_delta_append(e, true, false, q.pro_rata_x, true);
            lemma_vault_delta_append(e, true, false, q.pro_rata_x, false);
            lemma_vault_delta_append(s1, false, false, q.pro_rata_y, true);
            lemma_vault_delta_append(s1, false, false, q.pro_rata_y, false);
            lemma_vault_delta_append(s2, true, true, q.swap_in_x, true);
            lemma_vault_delta_append(s2, true, true, q.swap_in_x, false);
            lemma_vault_delta_append(s3, false, true, q.swap_in_y, true);
            lemma_vault_delta_append(s3, false, true, q.swap_in_y, false);
            lemma_vault_delta_append(s4, true, false, q.swap_out_x, true);
            lemma_vault_delta_append(s4, true, false, q.swap_out_x, false);
            lemma_vault_delta_append(s5, false, false, q.swap_out_y, true);
            lemma_vault_delta_append(s5, false, false, q.swap_out_y, false);
        },
    }
}

/// The amount of a token the user offers to a deposit (none when not offered).
pub open spec fn offered(token: Option<u64>) -> int {
    match token {
        Some(a) => a as int,
        None => 0,
    }
}

/// A deposit never moves more of a token into the vault than the user offered, and a
/// token the user did not offer only ever flows out of the vault to the user.
pub proof fn law_deposit_takes_at_most_offer(
    pool: PoolSnapshot,
    token_x: Option<u64>,
    token_y: Option<u64>,
    side: OperationSide,
    min_lp: u64,
)
    ensures
        spec_deposit(pool_of(pool), token_x, token_y, side_of(side), min_lp) matches Ok(q) ==> {
            &&& vault_delta(spec_deposit_transfers(side, q), true) <= offered(token_x)
            &&& vault_delta(spec_deposit_transfers(side, q), false) <= offered(token_y)
            &&& q.lp_minted >= min_lp
        },
{
    if let Ok(q) = spec_deposit(pool_of(pool), token_x, token_y, side_of(side), min_lp) {
        lemma_deposit_transfer_deltas(side, q);
        match (token_x, token_y, side) {
            (Some(a), Some(b), OperationSide::Balanced) => {
                law_balanced_deposit_within_offer(pool_of(pool), a, b, min_lp);
            },
            (Some(a), None, OperationSide::X) => {
                law_single_sided_deposit_within_offer(pool_of(pool), a, min_lp);
            },
            (None, Some(b), OperationSide::Y) => {
                law_single_sided_deposit_within_offer(pool_of(pool), b, min_lp);
            },
            _ => {},
        }
    }
}

/// A swap moves exactly the quoted input into the vault and the quoted output out of
/// it, and the vault's `k = x * y` never drops.
pub proof fn law_swap_moves_quote_and_keeps_k(pool: PoolSnapshot, amount: u64, side: OperationSide, min_out: u64)
    ensures
        spec_swap(pool_of(pool), amount, side_of(side), min_out) matches Ok(q) ==> {
            let ts = spec_swap_transfers(side, q);
            let dx = vault_delta(ts, true);
            let dy = vault_delta(ts, false);
            &&& side == OperationSide::X ==> dx == amount && dy == -(q.amount_out as int)
            &&& side == OperationSide::Y ==> dy == amount && dx == -(q.amount_out as int)
            &&& q.amount_out >= min_out
            &&& (pool.vault_x + dx) * (pool.vault_y + dy) >= pool.vault_x * pool.vault_y
        },
{
    if let Ok(q) = spec_swap(pool_of(pool), amount, side_of(side), min_out) {
        law_swap_keeps_k(pool_of(pool), amount, side_of(side), min_out);
        let ts = spec_swap_transfers(side, q);
        let first = ts.drop_last();
        assert(first.drop_last() =~= Seq::<Transfer>::empty());
        assert(first =~= seq![ts[0]]);
        assert(first.last() == ts[0]);
        assert(vault_delta(first.drop_last(), true) == 0);
        assert(vault_delta(first.drop_last(), false) == 0);
        assert(vault_delta(first, true) == leg(ts[0].is_x, true, q.amount_in, true));
        assert(vault_delta(first, false) == leg(ts[0].is_x, true, q.amount_in, false));
        assert(vault_delta(ts, true) == vault_delta(first, true) + leg(ts[1].is_x, false, q.amount_out, true));
        assert(vault_delta(ts, false) == vault_delta(first, false) + leg(ts[1].is_x, false, q.amount_out, false));
    }
}

/// A withdraw is carried out only right after this program's burn of exactly the LP
/// withdrawn, referencing the expected accounts; it only pays tokens out of the vault
/// (a single-sided withdraw leaves the other token's vault balance unchanged), and
/// never more than the vault holds.
pub proof fn law_withdraw_needs_burn_and_pays_out(
    accounts: WithdrawWithIntrospection,
    prior: Option<InstructionRecord>,
    lp_amount: u64,
    side: OperationSide,
    min_x: u64,
    min_y: u64,
)
    ensures
        accounts.spec_withdraw_w_introspection(prior, lp_amount, side, min_x, min_y) matches Ok(ts) ==> {
            &&& !accounts.pool.locked
            &&& prior matches Some(ix) && {
                &&& ix.program_id@ == accounts.program_id@
                &&& ix.data@.subrange(0, 8) == accounts.burn_discriminator@
                &&& ix.accounts@.len() == 9
                &&& forall|i: int| 0 <= i < 9 ==> #[trigger] ix.accounts@[i]@ == accounts.burn_accounts@[i]@
                &&& ix.data.len() == 16
                &&& le_value(ix.data@.subrange(8, 16)) == lp_amount
            }
            &&& vault_delta(ts, true) <= 0
            &&& vault_delta(ts, false) <= 0
            &&& side == OperationSide::X ==> vault_delta(ts, false) == 0
            &&& side == OperationSide::Y ==> vault_delta(ts, true) == 0
            &&& -vault_delta(ts, true) <= accounts.pool.vault_x
            &&& -vault_delta(ts, false) <= accounts.pool.vault_y
        },
{
    if let Ok(ts) = accounts.spec_withdraw_w_introspection(prior, lp_amount, side, min_x, min_y) {
        let pool = PoolState {
            reserve_x: accounts.pool.vault_x,
            reserve_y: accounts.pool.vault_y,
            lp_supply: (accounts.pool.lp_supply + lp_amount) as u64,
            fee_bps: accounts.pool.fee,
        };
        let q = spec_withdraw(pool, lp_amount, side_of(side), min_x, min_y)->Ok_0;
        lemma_withdraw_transfer_deltas(side, q);
        law_balanced_withdraw_pro_rata(pool, lp_amount, min_x, min_y);
        law_single_sided_withdraw(pool, lp_amount, min_x, min_y);
    }
}

/// What a withdraw's transfers take out of the vault is exactly the quote's payout:
/// `withdraw_x` of X and `withdraw_y` of Y.
proof fn lemma_withdraw_payout(pool: PoolState, lp_amount: u64, side: OperationSide, min_x: u64, min_y: u64)
    requires
        spec_withdraw(pool, lp_amount, side_of(side), min_x, min_y) is Ok,
    ensures
        ({
            let q = spec_withdraw(pool, lp_amount, side_of(side), min_x, min_y)->Ok_0;
            &&& -vault_delta(spec_withdraw_transfers(side, q), true) == q.withdraw_x
            &&& -vault_delta(spec_withdraw_transfers(side, q), false) == q.withdraw_y
        }),
{
    let q = spec_withdraw(pool, lp_amount, side_of(side), min_x, min_y)->Ok_0;
    lemma_withdraw_transfer_deltas(side, q);
    law_balanced_withdraw_pro_rata(pool, lp_amount, min_x, min_y);
    law_single_sided_withdraw(pool, lp_amount, min_x, min_y);
}

/// The withdraw instruction honours the caller's floors exactly: what it pays out meets
/// `min_x` of X and `min_y` of Y, and with floors `(min_x, min_y)` it succeeds, with the
/// same transfers, exactly when the same withdraw with no floors succeeds paying at least
/// `min_x` of X and `min_y` of Y.
pub proof fn law_withdraw_instruction_floors(
    accounts: WithdrawWithIntrospection,
    prior: Option<InstructionRecord>,
    lp_amount: u64,
    side: OperationSide,
    min_x: u64,
    min_y: u64,
)
    ensures
        accounts.spec_withdraw_w_introspection(prior, lp_amount, side, min_x, min_y) matches Ok(ts) ==> {
            &&& -vault_delta(ts, true) >= min_x
            &&& -vault_delta(ts, false) >= min_y
            &&& accounts.spec_withdraw_w_introspection(prior, lp_amount, side, 0, 0) == Ok::<
                Seq<Transfer>,
                AmmError,
            >(ts)
        },
        accounts.spec_withdraw_w_introspection(prior, lp_amount, side, 0, 0) matches Ok(ts) ==> (
        -vault_delta(ts, true) >= min_x && -vault_delta(ts, false) >= min_y
            ==> accounts.spec_withdraw_w_introspection(prior, lp_amount, side, min_x, min_y) == Ok::<
            Seq<Transfer>,
            AmmError,
        >(ts)),
{
    let pool = PoolState {
        reserve_x: accounts.pool.vault_x,
        reserve_y: accounts.pool.vault_y,
        lp_supply: (accounts.pool.lp_supply + lp_amount) as u64,
        fee_bps: accounts.pool.fee,
    };
    law_withdraw_floors(pool, lp_amount, side_of(side), min_x, min_y);
    if spec_withdraw(pool, lp_amount, side_of(side), 0, 0) is Ok {
        lemma_withdraw_payout(pool, lp_amount, side, 0, 0);
    }
    if spec_withdraw(pool, lp_amount, side_of(side), min_x, min_y) is Ok {
        lemma_withdraw_payout(pool, lp_amount, side, min_x, min_y);
    }
}


} // verus!
