use dex::error::ErrorCode;
use dex::pool::{LiquidityPool, SwapDirection};
use dex::registry::PoolRegistry;

/// A pool seeded by a first deposit of (100, 400): mints 200 shares.
fn seeded_pool() -> LiquidityPool {
    let mut p = LiquidityPool::create(1, 2, 0);
    let minted = p.add_liquidity(100, 400).unwrap();
    assert_eq!(minted, 200);
    p
}

#[test]
fn create_pool_assigns_handles_and_identity() {
    let mut reg = PoolRegistry::new();
    assert_eq!(reg.pool_count(), 0);
    assert_eq!(reg.create_pool(1, 2), Ok(0));
    assert_eq!(reg.create_pool(1, 3), Ok(1));
    assert_eq!(reg.pool_count(), 2);
    let p = reg.get_pool(1);
    assert_eq!(p.asset_a, 1);
    assert_eq!(p.asset_b, 3);
    assert_eq!(p.share_token, 1);
    assert_eq!(p.authority.asset_a, 1);
    assert_eq!(p.authority.asset_b, 3);
    assert_eq!(p.vault_a.balance, 0);
    assert_eq!(p.vault_b.balance, 0);
    assert_eq!(p.lp_supply, 0);
}

#[test]
fn create_pool_rejects_identical_assets() {
    let mut reg = PoolRegistry::new();
    assert_eq!(reg.create_pool(5, 5), Err(ErrorCode::IdenticalAssets));
    assert_eq!(reg.pool_count(), 0);
}

#[test]
fn create_pool_rejects_unordered_pair() {
    let mut reg = PoolRegistry::new();
    assert_eq!(reg.create_pool(3, 2), Err(ErrorCode::UnorderedAssets));
    assert_eq!(reg.pool_count(), 0);
}

#[test]
fn create_pool_rejects_duplicates_in_either_order() {
    let mut reg = PoolRegistry::new();
    assert_eq!(reg.create_pool(1, 2), Ok(0));
    assert_eq!(reg.create_pool(1, 2), Err(ErrorCode::AlreadyExists));
    assert_eq!(reg.create_pool(2, 1), Err(ErrorCode::UnorderedAssets));
    assert_eq!(reg.pool_count(), 1);
}

#[test]
fn first_deposit_mints_geometric_mean() {
    let mut p = LiquidityPool::create(1, 2, 0);
    assert_eq!(p.add_liquidity(100, 400), Ok(200));
    assert_eq!(p.vault_a.balance, 100);
    assert_eq!(p.vault_b.balance, 400);
    assert_eq!(p.lp_supply, 200);
}

#[test]
fn first_deposit_of_nothing_is_refused() {
    let mut p = LiquidityPool::create(1, 2, 0);
    assert_eq!(p.add_liquidity(0, 400), Err(ErrorCode::ZeroLiquidity));
    assert_eq!(p.add_liquidity(400, 0), Err(ErrorCode::ZeroLiquidity));
    assert_eq!(p.lp_supply, 0);
    assert_eq!(p.vault_a.balance, 0);
    assert_eq!(p.vault_b.balance, 0);
}

#[test]
fn mismatched_ratio_is_refused() {
    let mut p = seeded_pool();
    assert_eq!(p.add_liquidity(50, 100), Err(ErrorCode::RatioMismatch));
    assert_eq!(p.vault_a.balance, 100);
    assert_eq!(p.vault_b.balance, 400);
    assert_eq!(p.lp_supply, 200);
}

#[test]
fn matching_deposit_mints_proportionally() {
    let mut p = seeded_pool();
    assert_eq!(p.add_liquidity(50, 200), Ok(100));
    assert_eq!(p.vault_a.balance, 150);
    assert_eq!(p.vault_b.balance, 600);
    assert_eq!(p.lp_supply, 300);
}

#[test]
fn dust_deposit_minting_no_shares_is_refused() {
    // grow the reserves far past the share supply with two total-fee swaps,
    // then a ratio-matching deposit too small to mint a single share
    let mut p = LiquidityPool::create(1, 2, 0);
    assert_eq!(p.add_liquidity(2, 2), Ok(2));
    assert_eq!(p.swap(998, 0, SwapDirection::AToB, 10_000), Ok(0));
    assert_eq!(p.swap(998, 0, SwapDirection::BToA, 10_000), Ok(0));
    assert_eq!(p.vault_a.balance, 1000);
    assert_eq!(p.vault_b.balance, 1000);
    assert_eq!(p.lp_supply, 2);
    assert_eq!(p.add_liquidity(100, 100), Err(ErrorCode::ZeroLiquidity));
    assert_eq!(p.vault_a.balance, 1000);
    assert_eq!(p.vault_b.balance, 1000);
}

#[test]
fn swap_below_minimum_is_refused() {
    let mut p = seeded_pool();
    // quote: floor(10 * 400 / 110) == 36, short of the requested 100
    assert_eq!(
        p.swap(10, 100, SwapDirection::AToB, 0),
        Err(ErrorCode::SlippageExceeded)
    );
    assert_eq!(p.vault_a.balance, 100);
    assert_eq!(p.vault_b.balance, 400);
}

#[test]
fn swap_at_reachable_minimum_executes_quote() {
    let mut p = seeded_pool();
    assert_eq!(p.swap(10, 36, SwapDirection::AToB, 0), Ok(36));
    assert_eq!(p.vault_a.balance, 110);
    assert_eq!(p.vault_b.balance, 364);
    assert_eq!(p.lp_supply, 200);
    // the rounding residue stays in the pool: the product only gains
    assert!(110u128 * 364u128 >= 100u128 * 400u128);
}

#[test]
fn fee_free_swap_preserves_product_when_division_is_exact() {
    let mut p = seeded_pool();
    // 100 * 400 is divisible by 100 + 100, so no residue is left behind
    assert_eq!(p.swap(100, 0, SwapDirection::AToB, 0), Ok(200));
    assert_eq!(p.vault_a.balance, 200);
    assert_eq!(p.vault_b.balance, 200);
    assert_eq!(200u128 * 200u128, 100u128 * 400u128);
}

#[test]
fn swap_with_fee_grows_product() {
    let mut p = seeded_pool();
    // effective input floor(10 * 9970 / 10000) == 9; output floor(9*400/109) == 33
    assert_eq!(p.swap(10, 0, SwapDirection::AToB, 30), Ok(33));
    assert_eq!(p.vault_a.balance, 110);
    assert_eq!(p.vault_b.balance, 367);
    assert!(110u128 * 367u128 > 100u128 * 400u128);
}

#[test]
fn swap_in_opposite_direction_uses_swapped_roles() {
    let mut p = seeded_pool();
    // B-to-A: floor(40 * 100 / 440) == 9
    assert_eq!(p.swap(40, 0, SwapDirection::BToA, 0), Ok(9));
    assert_eq!(p.vault_a.balance, 91);
    assert_eq!(p.vault_b.balance, 440);
}

#[test]
fn swap_output_monotone_and_bounded() {
    let inputs: [u64; 6] = [1, 5, 10, 100, 10_000, 1_000_000];
    let mut last: u64 = 0;
    for &x in inputs.iter() {
        let mut p = seeded_pool();
        let out = p.swap(x, 0, SwapDirection::AToB, 0).unwrap();
        assert!(out >= last, "output fell from {} to {} at input {}", last, out, x);
        assert!(out < 400, "output {} reached the out-reserve at input {}", out, x);
        last = out;
    }
}

#[test]
fn swap_output_strictly_grows_where_division_is_exact() {
    // both quotes divide exactly: 100*400/200 == 200 and 300*400/400 == 300
    let mut p1 = seeded_pool();
    let mut p2 = seeded_pool();
    let out1 = p1.swap(100, 0, SwapDirection::AToB, 0).unwrap();
    let out2 = p2.swap(300, 0, SwapDirection::AToB, 0).unwrap();
    assert_eq!(out1, 200);
    assert_eq!(out2, 300);
    assert!(out1 < out2);
}

#[test]
fn swap_of_zero_is_refused() {
    let mut p = seeded_pool();
    assert_eq!(p.swap(0, 0, SwapDirection::AToB, 0), Err(ErrorCode::ZeroAmount));
    assert_eq!(p.vault_a.balance, 100);
    assert_eq!(p.vault_b.balance, 400);
}

#[test]
fn swap_against_empty_pool_is_refused() {
    let mut p = LiquidityPool::create(1, 2, 0);
    assert_eq!(p.swap(10, 0, SwapDirection::AToB, 0), Err(ErrorCode::ZeroLiquidity));
    assert_eq!(p.vault_a.balance, 0);
    assert_eq!(p.vault_b.balance, 0);
}

#[test]
fn swap_overflowing_reserve_fails_closed() {
    let mut p = LiquidityPool::create(1, 2, 0);
    assert_eq!(p.add_liquidity(u64::MAX, u64::MAX), Ok(u64::MAX));
    assert_eq!(
        p.swap(1, 0, SwapDirection::AToB, 0),
        Err(ErrorCode::ArithmeticOverflow)
    );
    assert_eq!(p.vault_a.balance, u64::MAX);
    assert_eq!(p.vault_b.balance, u64::MAX);
}

#[test]
fn deposit_overflowing_supply_fails_closed() {
    let mut p = LiquidityPool::create(1, 2, 0);
    assert_eq!(p.add_liquidity(u64::MAX, u64::MAX), Ok(u64::MAX));
    assert_eq!(
        p.add_liquidity(u64::MAX, u64::MAX),
        Err(ErrorCode::ArithmeticOverflow)
    );
    assert_eq!(p.lp_supply, u64::MAX);
}

#[test]
fn total_fee_consumes_entire_input() {
    let mut p = seeded_pool();
    // a 100% fee leaves nothing to price: the input joins the reserves
    assert_eq!(p.swap(1000, 0, SwapDirection::AToB, 10_000), Ok(0));
    assert_eq!(p.vault_a.balance, 1100);
    assert_eq!(p.vault_b.balance, 400);
}

#[test]
fn remove_liquidity_pays_proportional_claim() {
    let mut p = seeded_pool();
    assert_eq!(p.remove_liquidity(50), Ok((25, 100)));
    assert_eq!(p.vault_a.balance, 75);
    assert_eq!(p.vault_b.balance, 300);
    assert_eq!(p.lp_supply, 150);
}

#[test]
fn remove_then_redeposit_restores_pool_exactly() {
    let mut p = seeded_pool();
    let (out_a, out_b) = p.remove_liquidity(50).unwrap();
    assert_eq!((out_a, out_b), (25, 100));
    assert_eq!(p.add_liquidity(out_a, out_b), Ok(50));
    assert_eq!(p.vault_a.balance, 100);
    assert_eq!(p.vault_b.balance, 400);
    assert_eq!(p.lp_supply, 200);
}

#[test]
fn remove_everything_empties_pool_and_reopens_it() {
    let mut p = seeded_pool();
    assert_eq!(p.remove_liquidity(200), Ok((100, 400)));
    assert_eq!(p.vault_a.balance, 0);
    assert_eq!(p.vault_b.balance, 0);
    assert_eq!(p.lp_supply, 0);
    // the next deposit is a first deposit again
    assert_eq!(p.add_liquidity(9, 4), Ok(6));
    assert_eq!(p.lp_supply, 6);
}

#[test]
fn remove_of_more_than_supply_is_refused() {
    let mut p = seeded_pool();
    assert_eq!(p.remove_liquidity(201), Err(ErrorCode::InsufficientShares));
    assert_eq!(p.lp_supply, 200);
    assert_eq!(p.vault_a.balance, 100);
}

#[test]
fn remove_of_zero_shares_changes_nothing() {
    let mut p = seeded_pool();
    assert_eq!(p.remove_liquidity(0), Ok((0, 0)));
    assert_eq!(p.lp_supply, 200);
    assert_eq!(p.vault_a.balance, 100);
    assert_eq!(p.vault_b.balance, 400);
}

#[test]
fn pool_identity_never_changes() {
    let mut reg = PoolRegistry::new();
    assert_eq!(reg.create_pool(7, 9), Ok(0));
    let before = reg.get_pool(0);
    assert_eq!(reg.add_liquidity(0, 100, 400), Ok(200));
    assert_eq!(reg.swap(0, 10, 0, SwapDirection::AToB, 25), Ok(33));
    assert_eq!(reg.remove_liquidity(0, 10), Ok((5, 18)));
    let after = reg.get_pool(0);
    assert_eq!(after.asset_a, before.asset_a);
    assert_eq!(after.asset_b, before.asset_b);
    assert_eq!(after.share_token, before.share_token);
    assert_eq!(after.authority, before.authority);
    assert_eq!(after.vault_a.asset, before.vault_a.asset);
    assert_eq!(after.vault_b.asset, before.vault_b.asset);
    assert_eq!(after.vault_a.owner, before.vault_a.owner);
    assert_eq!(after.vault_b.owner, before.vault_b.owner);
}

#[test]
fn registry_ops_touch_only_the_addressed_pool() {
    let mut reg = PoolRegistry::new();
    assert_eq!(reg.create_pool(1, 2), Ok(0));
    assert_eq!(reg.create_pool(3, 4), Ok(1));
    assert_eq!(reg.add_liquidity(0, 100, 400), Ok(200));
    assert_eq!(reg.add_liquidity(1, 9, 9), Ok(9));
    assert_eq!(reg.swap(0, 10, 0, SwapDirection::AToB, 0), Ok(36));
    let other = reg.get_pool(1);
    assert_eq!(other.vault_a.balance, 9);
    assert_eq!(other.vault_b.balance, 9);
    assert_eq!(other.lp_supply, 9);
}
