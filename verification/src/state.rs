use vstd::prelude::*;

use crate::math::BPS_DENOMINATOR;

verus! {

/// A 256-bit ledger address, the width of the host runtime's account and
/// asset identifiers. The accounting core only ever compares these for
/// equality; the embedding program converts the runtime's key type to and
/// from this one.
#[derive(Clone, Copy, Debug, PartialEq, Eq, Structural)]
pub struct AccountId {
    pub hi: u128,
    pub lo: u128,
}

/// The accounting view of one balance-holding account: the asset type it
/// holds and its current balance.
#[derive(Clone, Copy, Debug, PartialEq, Eq, Structural)]
pub struct TokenAccount {
    pub mint: AccountId,
    pub amount: u64,
}

/// The persistent record describing one trading pair: the controlling
/// authority, the two asset types, the two vaults that hold them, and the
/// trading fee in basis points. Created once; only the vault balances it
/// points at ever change afterwards.
#[derive(Clone, Copy, Debug, PartialEq, Eq, Structural)]
pub struct Pool {
    pub authority: AccountId,
    pub mint_a: AccountId,
    pub mint_b: AccountId,
    pub vault_a: AccountId,
    pub vault_b: AccountId,
    pub fee_bps: u16,
}

impl Pool {
    /// A pool is well formed while its fee stays strictly below 100%: at
    /// 10_000 basis points or more the pricing formula degenerates (the
    /// fee-adjusted input underflows).
    pub open spec fn wf(self) -> bool {
        (self.fee_bps as u64) < BPS_DENOMINATOR
    }
}

/// One-time pool creation: records the authority, the two asset types, the
/// two vaults and the fee exactly as supplied, and nothing else. The caller
/// is trusted to supply matching mints and vaults; only the fee range is
/// forced, since every later quote depends on it.
pub fn initialize_pool(
    authority: AccountId,
    mint_a: AccountId,
    mint_b: AccountId,
    vault_a: AccountId,
    vault_b: AccountId,
    fee_bps: u16,
) -> (pool: Pool)
    requires
        (fee_bps as u64) < BPS_DENOMINATOR,
    ensures
        pool == (Pool { authority, mint_a, mint_b, vault_a, vault_b, fee_bps }),
        pool.wf(),
{
    Pool { authority, mint_a, mint_b, vault_a, vault_b, fee_bps }
}

} // verus!

