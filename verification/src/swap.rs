use vstd::prelude::*;

use crate::error::DexError;
use crate::math::compute_constant_product_quote;
use crate::math::lemma_quote_le_reserve_out;
use crate::math::quote;
use crate::state::AccountId;
use crate::state::Pool;
use crate::state::TokenAccount;

verus! {

/// The direction of a trade, inferred from the user's source account rather
/// than declared: a source holding `mint_a` trades A to B; any other source
/// falls through to B to A and is then held against the destination-mint
/// check, which rejects it unless the destination holds `mint_a`.
#[derive(Clone, Copy, Debug, PartialEq, Eq, Structural)]
pub enum Direction {
    AToB,
    BToA,
}

/// Everything the host runtime needs to settle an accepted trade: the
/// inferred direction and the two amounts to move — `amount_in` from the
/// user's source account into the source-side vault, authorized by the user,
/// then `amount_out` from the destination-side vault to the user, authorized
/// by the pool.
#[derive(Clone, Copy, Debug, PartialEq, Eq, Structural)]
pub struct SwapOutcome {
    pub direction: Direction,
    pub amount_in: u64,
    pub amount_out: u64,
}

/// The inference rule for the trade direction.
pub open spec fn direction_of(pool: Pool, source_mint: AccountId) -> Direction {
    if source_mint == pool.mint_a {
        Direction::AToB
    } else {
        Direction::BToA
    }
}

/// The mint an accepted trade pays out in.
pub open spec fn output_mint(pool: Pool, direction: Direction) -> AccountId {
    if direction == Direction::AToB {
        pool.mint_b
    } else {
        pool.mint_a
    }
}

/// The balance of the vault the trade pays into.
pub open spec fn reserve_in_of(
    direction: Direction,
    vault_a: TokenAccount,
    vault_b: TokenAccount,
) -> u64 {
    if direction == Direction::AToB {
        vault_a.amount
    } else {
        vault_b.amount
    }
}

/// The balance of the vault the trade pays out of.
pub open spec fn reserve_out_of(
    direction: Direction,
    vault_a: TokenAccount,
    vault_b: TokenAccount,
) -> u64 {
    if direction == Direction::AToB {
        vault_b.amount
    } else {
        vault_a.amount
    }
}

/// The identity gate: both vaults must hold exactly the asset the pool
/// recorded for them, and the user's destination account must hold the
/// output mint of the inferred direction. An unrecognized source mint forces
/// the B-to-A branch and is then rejected here unless the destination holds
/// `mint_a`.
pub open spec fn accounts_valid(
    pool: Pool,
    vault_a: TokenAccount,
    vault_b: TokenAccount,
    user_source: TokenAccount,
    user_destination: TokenAccount,
) -> bool {
    &&& vault_a.mint == pool.mint_a
    &&& vault_b.mint == pool.mint_b
    &&& user_destination.mint == output_mint(pool, direction_of(pool, user_source.mint))
}

/// The complete decision a swap makes, checks in their rejection order:
/// a zero amount, then the account identities, then empty reserves, then
/// the caller's slippage bound; past all four, the constant-product outcome.
pub open spec fn swap_result(
    pool: Pool,
    vault_a: TokenAccount,
    vault_b: TokenAccount,
    user_source: TokenAccount,
    user_destination: TokenAccount,
    amount_in: u64,
    min_amount_out: u64,
) -> Result<SwapOutcome, DexError> {
    let direction = direction_of(pool, user_source.mint);
    let reserve_in = reserve_in_of(direction, vault_a, vault_b);
    let reserve_out = reserve_out_of(direction, vault_a, vault_b);
    if amount_in == 0 {
        Err(DexError::InvalidAmount)
    } else if !accounts_valid(pool, vault_a, vault_b, user_source, user_destination) {
        Err(DexError::InvalidAccount)
    } else if reserve_in == 0 || reserve_out == 0 {
        Err(DexError::InvalidAmount)
    } else if quote(amount_in, reserve_in, reserve_out, pool.fee_bps) < min_amount_out {
        Err(DexError::SlippageExceeded)
    } else {
        Ok(
            SwapOutcome {
                direction,
                amount_in,
                amount_out: quote(amount_in, reserve_in, reserve_out, pool.fee_bps) as u64,
            },
        )
    }
}

/// Validates a trade request against the pool's recorded identities, prices
/// it with the fee-adjusted constant-product formula, and enforces the
/// caller's minimum output. No balance moves here: an accepted trade returns
/// the exact settlement for the host runtime to perform, a rejected one
/// returns the first failing check's error and nothing else.
pub fn swap(
    pool: &Pool,
    vault_a: &TokenAccount,
    vault_b: &TokenAccount,
    user_source: &TokenAccount,
    user_destination: &TokenAccount,
    amount_in: u64,
    min_amount_out: u64,
) -> (r: Result<SwapOutcome, DexError>)
    requires
        pool.wf(),
    ensures
        r == swap_result(
            *pool,
            *vault_a,
            *vault_b,
            *user_source,
            *user_destination,
            amount_in,
            min_amount_out,
        ),
        amount_in == 0 ==> r == Err::<SwapOutcome, DexError>(DexError::InvalidAmount),
        amount_in > 0 && (vault_a.mint != pool.mint_a || vault_b.mint != pool.mint_b) ==> r
            == Err::<SwapOutcome, DexError>(DexError::InvalidAccount),
        r is Ok ==> r->Ok_0.amount_out as int == quote(
            amount_in,
            reserve_in_of(r->Ok_0.direction, *vault_a, *vault_b),
            reserve_out_of(r->Ok_0.direction, *vault_a, *vault_b),
            pool.fee_bps,
        ) && r->Ok_0.amount_out >= min_amount_out,
{
    if amount_in == 0 {
        return Err(DexError::InvalidAmount);
    }
    let is_a_to_b: bool = user_source.mint == pool.mint_a;
    if vault_a.mint != pool.mint_a {
        return Err(DexError::InvalidAccount);
    }
    if vault_b.mint != pool.mint_b {
        return Err(DexError::InvalidAccount);
    }
    let expected_destination: AccountId = if is_a_to_b {
        pool.mint_b
    } else {
        pool.mint_a
    };
    if user_destination.mint != expected_destination {
        return Err(DexError::InvalidAccount);
    }

    let reserve_in: u64 = if is_a_to_b {
        vault_a.amount
    } else {
        vault_b.amount
    };
    let reserve_out: u64 = if is_a_to_b {
        vault_b.amount
    } else {
        vault_a.amount
    };
    let quote_out: u64 = match compute_constant_product_quote(
        amount_in,
        reserve_in,
        reserve_out,
        pool.fee_bps,
    ) {
        Ok(q) => q,
        Err(e) => {
            return Err(e);
        },
    };
    if quote_out < min_amount_out {
        return Err(DexError::SlippageExceeded);
    }
    let direction: Direction = if is_a_to_b {
        Direction::AToB
    } else {
        Direction::BToA
    };
    Ok(SwapOutcome { direction, amount_in, amount_out: quote_out })
}

/// Whether the ledger can absorb the settlement of an accepted trade: the
/// user can cover the input and neither receiving balance overflows. The
/// external transfer primitive fails the whole transaction otherwise, so a
/// settlement run asks for this up front. Trivially true of a rejected
/// trade, which settles nothing.
pub open spec fn settlement_fits(
    pool: Pool,
    vault_a: TokenAccount,
    vault_b: TokenAccount,
    user_source: TokenAccount,
    user_destination: TokenAccount,
    amount_in: u64,
    min_amount_out: u64,
) -> bool {
    swap_result(
        pool,
        vault_a,
        vault_b,
        user_source,
        user_destination,
        amount_in,
        min_amount_out,
    ) matches Ok(o) ==> {
        &&& amount_in <= user_source.amount
        &&& reserve_in_of(o.direction, vault_a, vault_b) + amount_in <= u64::MAX
        &&& user_destination.amount + o.amount_out <= u64::MAX
    }
}

/// Runs one full swap over the accounting model: the validation gate, the
/// quote, the slippage check, and then the two settlement transfers applied
/// to the in-memory balances in the order the runtime issues them — the
/// input into the source-side vault first, the output out of the
/// destination-side vault second. A rejected trade returns the first failing
/// check's error and leaves every account exactly as it was.
pub fn execute_swap(
    pool: &Pool,
    vault_a: &mut TokenAccount,
    vault_b: &mut TokenAccount,
    user_source: &mut TokenAccount,
    user_destination: &mut TokenAccount,
    amount_in: u64,
    min_amount_out: u64,
) -> (r: Result<u64, DexError>)
    requires
        pool.wf(),
        settlement_fits(
            *pool,
            *old(vault_a),
            *old(vault_b),
            *old(user_source),
            *old(user_destination),
            amount_in,
            min_amount_out,
        ),
    ensures
        ({
            let s = swap_result(
                *pool,
                *old(vault_a),
                *old(vault_b),
                *old(user_source),
                *old(user_destination),
                amount_in,
                min_amount_out,
            );
            &&& (r is Ok <==> s is Ok)
            &&& (s matches Err(e) ==> r == Err::<u64, DexError>(e) && *final(vault_a) == *old(
                vault_a,
            ) && *final(vault_b) == *old(vault_b) && *final(user_source) == *old(user_source)
                && *final(user_destination) == *old(user_destination))
            &&& (s matches Ok(o) ==> {
                &&& r == Ok::<u64, DexError>(o.amount_out)
                &&& final(user_source).mint == old(user_source).mint
                &&& final(user_source).amount == old(user_source).amount - o.amount_in
                &&& final(user_destination).mint == old(user_destination).mint
                &&& final(user_destination).amount == old(user_destination).amount + o.amount_out
                &&& final(vault_a).mint == old(vault_a).mint
                &&& final(vault_b).mint == old(vault_b).mint
                &&& (o.direction == Direction::AToB ==> final(vault_a).amount == old(
                    vault_a,
                ).amount + o.amount_in && final(vault_b).amount == old(vault_b).amount
                    - o.amount_out)
                &&& (o.direction == Direction::BToA ==> final(vault_b).amount == old(
                    vault_b,
                ).amount + o.amount_in && final(vault_a).amount == old(vault_a).amount
                    - o.amount_out)
            })
        }),
{
    let vault_a_before: TokenAccount = *vault_a;
    let vault_b_before: TokenAccount = *vault_b;
    let source_before: TokenAccount = *user_source;
    let destination_before: TokenAccount = *user_destination;
    let outcome: SwapOutcome = match swap(
        pool,
        &vault_a_before,
        &vault_b_before,
        &source_before,
        &destination_before,
        amount_in,
        min_amount_out,
    ) {
        Ok(o) => o,
        Err(e) => {
            return Err(e);
        },
    };
    proof {
        if outcome.direction == Direction::AToB {
            lemma_quote_le_reserve_out(
                amount_in,
                vault_a_before.amount,
                vault_b_before.amount,
                pool.fee_bps,
            );
        } else {
            lemma_quote_le_reserve_out(
                amount_in,
                vault_b_before.amount,
                vault_a_before.amount,
                pool.fee_bps,
            );
        }
    }
    user_source.amount = user_source.amount - amount_in;
    match outcome.direction {
        Direction::AToB => {
            vault_a.amount = vault_a.amount + amount_in;
            vault_b.amount = vault_b.amount - outcome.amount_out;
        },
        Direction::BToA => {
            vault_b.amount = vault_b.amount + amount_in;
            vault_a.amount = vault_a.amount - outcome.amount_out;
        },
    }
    user_destination.amount = user_destination.amount + outcome.amount_out;
    Ok(outcome.amount_out)
}

/// Slippage enforcement is exact: a trade that passes every other check
/// succeeds precisely at its quote. Demanding the quote itself as the
/// minimum succeeds and returns it; demanding one unit more fails with
/// `SlippageExceeded`.
pub proof fn lemma_slippage_exact(
    pool: Pool,
    vault_a: TokenAccount,
    vault_b: TokenAccount,
    user_source: TokenAccount,
    user_destination: TokenAccount,
    amount_in: u64,
)
    requires
        pool.wf(),
        amount_in > 0,
        accounts_valid(pool, vault_a, vault_b, user_source, user_destination),
        reserve_in_of(direction_of(pool, user_source.mint), vault_a, vault_b) > 0,
        reserve_out_of(direction_of(pool, user_source.mint), vault_a, vault_b) > 0,
        quote(
            amount_in,
            reserve_in_of(direction_of(pool, user_source.mint), vault_a, vault_b),
            reserve_out_of(direction_of(pool, user_source.mint), vault_a, vault_b),
            pool.fee_bps,
        ) < u64::MAX,
    ensures
        ({
            let q = quote(
                amount_in,
                reserve_in_of(direction_of(pool, user_source.mint), vault_a, vault_b),
                reserve_out_of(direction_of(pool, user_source.mint), vault_a, vault_b),
                pool.fee_bps,
            );
            &&& swap_result(
                pool,
                vault_a,
                vault_b,
                user_source,
                user_destination,
                amount_in,
                q as u64,
            ) matches Ok(o) && o.amount_out == q as u64
            &&& swap_result(
                pool,
                vault_a,
                vault_b,
                user_source,
                user_destination,
                amount_in,
                (q + 1) as u64,
            ) == Err::<SwapOutcome, DexError>(DexError::SlippageExceeded)
        }),
{
    lemma_quote_le_reserve_out(
        amount_in,
        reserve_in_of(direction_of(pool, user_source.mint), vault_a, vault_b),
        reserve_out_of(direction_of(pool, user_source.mint), vault_a, vault_b),
        pool.fee_bps,
    );
}

} // verus!
