use dex_ai::error::DexError;
use dex_ai::math::compute_constant_product_quote;
use dex_ai::state::initialize_pool;
use dex_ai::state::AccountId;
use dex_ai::state::Pool;
use dex_ai::state::TokenAccount;
use dex_ai::swap::execute_swap;
use dex_ai::swap::swap;
use dex_ai::swap::Direction;

fn id(n: u128) -> AccountId {
    AccountId { hi: n, lo: n.wrapping_mul(7919) }
}

fn pool(fee_bps: u16) -> Pool {
    initialize_pool(id(1), id(10), id(11), id(20), id(21), fee_bps)
}

struct Setup {
    pool: Pool,
    vault_a: TokenAccount,
    vault_b: TokenAccount,
    user_source: TokenAccount,
    user_destination: TokenAccount,
}

/// A healthy A-to-B setup: a million on each side, a funded user.
fn setup(fee_bps: u16, reserve_a: u64, reserve_b: u64) -> Setup {
    let p = pool(fee_bps);
    Setup {
        pool: p,
        vault_a: TokenAccount { mint: p.mint_a, amount: reserve_a },
        vault_b: TokenAccount { mint: p.mint_b, amount: reserve_b },
        user_source: TokenAccount { mint: p.mint_a, amount: 1_000_000 },
        user_destination: TokenAccount { mint: p.mint_b, amount: 0 },
    }
}

#[test]
fn initialize_pool_records_fields() {
    let p = initialize_pool(id(1), id(10), id(11), id(20), id(21), 30);
    assert_eq!(p.authority, id(1));
    assert_eq!(p.mint_a, id(10));
    assert_eq!(p.mint_b, id(11));
    assert_eq!(p.vault_a, id(20));
    assert_eq!(p.vault_b, id(21));
    assert_eq!(p.fee_bps, 30);
}

#[test]
fn quote_concrete_scenario() {
    // fee 30 bps on 1000 leaves 997; 997 * 1_000_000 / 1_000_997 floors to 996
    assert_eq!(compute_constant_product_quote(1000, 1_000_000, 1_000_000, 30), Ok(996));
}

#[test]
fn quote_zero_fee() {
    assert_eq!(compute_constant_product_quote(1000, 1_000_000, 1_000_000, 0), Ok(999));
}

#[test]
fn quote_rejects_empty_pool() {
    assert_eq!(
        compute_constant_product_quote(1000, 0, 1_000_000, 30),
        Err(DexError::InvalidAmount)
    );
    assert_eq!(
        compute_constant_product_quote(1000, 1_000_000, 0, 30),
        Err(DexError::InvalidAmount)
    );
}

#[test]
fn quote_saturates_instead_of_wrapping() {
    // amount_in * 10_000 overflows: the multiplication saturates at u64::MAX,
    // so the net input is u64::MAX / 10_000, not the raw amount.
    assert_eq!(compute_constant_product_quote(u64::MAX, 1, 1, 0), Ok(0));
    // numerator saturation: net_in * reserve_out clamps to u64::MAX
    assert_eq!(compute_constant_product_quote(u64::MAX, 1, u64::MAX, 0), Ok(9999));
    // denominator saturation: reserve_in + net_in clamps to u64::MAX
    assert_eq!(compute_constant_product_quote(u64::MAX, u64::MAX, 1, 0), Ok(0));
    assert_eq!(compute_constant_product_quote(u64::MAX, u64::MAX, u64::MAX, 30), Ok(1));
}

#[test]
fn quote_monotone_in_amount() {
    let amounts: [u64; 6] = [0, 1, 10, 1000, 2000, 1_000_000];
    let expected: [u64; 6] = [0, 0, 8, 996, 1990, 499_248];
    let mut previous: u64 = 0;
    for (a, e) in amounts.iter().zip(expected.iter()) {
        let q = compute_constant_product_quote(*a, 1_000_000, 1_000_000, 30).unwrap();
        assert_eq!(q, *e);
        assert!(q >= previous);
        previous = q;
    }
}

#[test]
fn pool_product_never_shrinks() {
    for fee_bps in [0u16, 1, 30, 500, 9999] {
        for amount_in in [1u64, 997, 55_555, 1_000_000] {
            let reserve_in: u64 = 1_000_000;
            let reserve_out: u64 = 3_000_000;
            let net_in = (amount_in as u128) * ((10_000 - fee_bps as u64) as u128) / 10_000;
            let out =
                compute_constant_product_quote(amount_in, reserve_in, reserve_out, fee_bps)
                    .unwrap() as u128;
            let before = (reserve_in as u128) * (reserve_out as u128);
            let after = (reserve_in as u128 + net_in) * (reserve_out as u128 - out);
            assert!(after >= before);
            // and the rounding loss stays below one denominator's worth
            assert!(after < before + (reserve_in as u128 + net_in));
        }
    }
}

#[test]
fn swap_scenario_succeeds_at_exact_quote() {
    let s = setup(30, 1_000_000, 1_000_000);
    let r = swap(&s.pool, &s.vault_a, &s.vault_b, &s.user_source, &s.user_destination, 1000, 996)
        .unwrap();
    assert_eq!(r.direction, Direction::AToB);
    assert_eq!(r.amount_in, 1000);
    assert_eq!(r.amount_out, 996);
}

#[test]
fn swap_scenario_fails_one_above_quote() {
    let s = setup(30, 1_000_000, 1_000_000);
    let r = swap(&s.pool, &s.vault_a, &s.vault_b, &s.user_source, &s.user_destination, 1000, 997);
    assert_eq!(r, Err(DexError::SlippageExceeded));
}

#[test]
fn swap_zero_amount_rejected() {
    let s = setup(30, 1_000_000, 1_000_000);
    let r = swap(&s.pool, &s.vault_a, &s.vault_b, &s.user_source, &s.user_destination, 0, 0);
    assert_eq!(r, Err(DexError::InvalidAmount));
    // the same regardless of reserves, even ones a quote would reject anyway
    let empty = setup(30, 0, 0);
    let r = swap(
        &empty.pool,
        &empty.vault_a,
        &empty.vault_b,
        &empty.user_source,
        &empty.user_destination,
        0,
        0,
    );
    assert_eq!(r, Err(DexError::InvalidAmount));
}

#[test]
fn swap_tampered_vault_rejected() {
    let mut s = setup(30, 1_000_000, 1_000_000);
    s.vault_a.mint = id(99);
    let r = swap(&s.pool, &s.vault_a, &s.vault_b, &s.user_source, &s.user_destination, 1000, 0);
    assert_eq!(r, Err(DexError::InvalidAccount));

    let mut s = setup(30, 1_000_000, 1_000_000);
    s.vault_b.mint = id(99);
    let r = swap(&s.pool, &s.vault_a, &s.vault_b, &s.user_source, &s.user_destination, 1000, 0);
    assert_eq!(r, Err(DexError::InvalidAccount));
}

#[test]
fn swap_wrong_destination_rejected() {
    let mut s = setup(30, 1_000_000, 1_000_000);
    // source holds mint_a, so the destination must hold mint_b
    s.user_destination.mint = s.pool.mint_a;
    let r = swap(&s.pool, &s.vault_a, &s.vault_b, &s.user_source, &s.user_destination, 1000, 0);
    assert_eq!(r, Err(DexError::InvalidAccount));
}

#[test]
fn swap_unknown_source_mint_falls_through_to_b_to_a() {
    // a source holding neither mint is not rejected by the direction check:
    // it infers B-to-A and is then held against the destination-mint check.
    let mut s = setup(30, 1_000_000, 1_000_000);
    s.user_source.mint = id(99);
    let r = swap(&s.pool, &s.vault_a, &s.vault_b, &s.user_source, &s.user_destination, 1000, 0);
    assert_eq!(r, Err(DexError::InvalidAccount));

    // with the destination holding mint_a the same source is accepted, B-to-A
    s.user_destination.mint = s.pool.mint_a;
    let r = swap(&s.pool, &s.vault_a, &s.vault_b, &s.user_source, &s.user_destination, 1000, 0)
        .unwrap();
    assert_eq!(r.direction, Direction::BToA);
}

#[test]
fn swap_b_to_a_uses_swapped_reserves() {
    let p = pool(30);
    let vault_a = TokenAccount { mint: p.mint_a, amount: 1_000_000 };
    let vault_b = TokenAccount { mint: p.mint_b, amount: 2_000_000 };
    let user_source = TokenAccount { mint: p.mint_b, amount: 10_000 };
    let user_destination = TokenAccount { mint: p.mint_a, amount: 0 };
    // reserve_in is vault_b (2_000_000), reserve_out is vault_a (1_000_000):
    // net 498, output floor(498 * 1_000_000 / 2_000_498) = 248
    let r = swap(&p, &vault_a, &vault_b, &user_source, &user_destination, 500, 0).unwrap();
    assert_eq!(r.direction, Direction::BToA);
    assert_eq!(r.amount_out, 248);
}

#[test]
fn swap_rejects_empty_reserves() {
    let s = setup(30, 0, 1_000_000);
    let r = swap(&s.pool, &s.vault_a, &s.vault_b, &s.user_source, &s.user_destination, 1000, 0);
    assert_eq!(r, Err(DexError::InvalidAmount));
}

#[test]
fn execute_swap_settles_both_transfers() {
    let s = setup(30, 1_000_000, 1_000_000);
    let mut vault_a = s.vault_a;
    let mut vault_b = s.vault_b;
    let mut user_source = s.user_source;
    let mut user_destination = s.user_destination;
    let r = execute_swap(
        &s.pool,
        &mut vault_a,
        &mut vault_b,
        &mut user_source,
        &mut user_destination,
        1000,
        996,
    );
    assert_eq!(r, Ok(996));
    assert_eq!(vault_a.amount, 1_001_000);
    assert_eq!(vault_b.amount, 999_004);
    assert_eq!(user_source.amount, 999_000);
    assert_eq!(user_destination.amount, 996);
}

#[test]
fn execute_swap_rejection_leaves_balances_untouched() {
    // every rejection case: tampered vault, zero amount, empty reserve,
    // slippage — the four balances stay bit-identical
    let cases: [(u64, u64, bool, u64, u64); 4] = [
        (1000, 0, true, 1_000_000, 1_000_000),  // tampered vault
        (0, 0, false, 1_000_000, 1_000_000),    // zero amount
        (1000, 0, false, 0, 1_000_000),         // empty reserve
        (1000, 997, false, 1_000_000, 1_000_000),  // slippage
    ];
    for (amount_in, min_out, tamper, ra, rb) in cases {
        let mut s = setup(30, ra, rb);
        if tamper {
            s.vault_a.mint = id(99);
        }
        let mut vault_a = s.vault_a;
        let mut vault_b = s.vault_b;
        let mut user_source = s.user_source;
        let mut user_destination = s.user_destination;
        let r = execute_swap(
            &s.pool,
            &mut vault_a,
            &mut vault_b,
            &mut user_source,
            &mut user_destination,
            amount_in,
            min_out,
        );
        assert!(r.is_err());
        assert_eq!(vault_a, s.vault_a);
        assert_eq!(vault_b, s.vault_b);
        assert_eq!(user_source, s.user_source);
        assert_eq!(user_destination, s.user_destination);
    }
}

#[test]
fn slippage_boundary_is_exact_across_inputs() {
    for amount_in in [1u64, 997, 55_555, 1_000_000] {
        let quote = compute_constant_product_quote(amount_in, 1_000_000, 3_000_000, 30).unwrap();
        let s = setup(30, 1_000_000, 3_000_000);
        let at = swap(
            &s.pool,
            &s.vault_a,
            &s.vault_b,
            &s.user_source,
            &s.user_destination,
            amount_in,
            quote,
        );
        assert_eq!(at.unwrap().amount_out, quote);
        let above = swap(
            &s.pool,
            &s.vault_a,
            &s.vault_b,
            &s.user_source,
            &s.user_destination,
            amount_in,
            quote + 1,
        );
        assert_eq!(above, Err(DexError::SlippageExceeded));
    }
}
