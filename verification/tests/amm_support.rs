use dex::bonding_curve::{BondingCurve, LAUNCH_TOKEN_SUPPLY, LAUNCH_VIRTUAL_QUOTE};
use dex::error::ErrorCode;
use dex::lending::{LendingPool, UserAccount};
use dex::math::{integer_sqrt, FEE_DENOMINATOR};
use dex::vault::{AuthorityHandle, Vault};

#[test]
fn integer_sqrt_exact_values() {
    assert_eq!(integer_sqrt(0), 0);
    assert_eq!(integer_sqrt(1), 1);
    assert_eq!(integer_sqrt(3), 1);
    assert_eq!(integer_sqrt(4), 2);
    assert_eq!(integer_sqrt(99), 9);
    assert_eq!(integer_sqrt(40_000), 200);
    assert_eq!(integer_sqrt(u64::MAX as u128 * u64::MAX as u128), u64::MAX);
    assert_eq!(integer_sqrt(u128::MAX), u64::MAX);
}

#[test]
fn fee_denominator_is_whole_in_basis_points() {
    assert_eq!(FEE_DENOMINATOR, 10_000);
}

#[test]
fn vault_credit_and_debit_move_the_balance() {
    let owner = AuthorityHandle { asset_a: 1, asset_b: 2 };
    let mut v = Vault::new(7, owner);
    assert_eq!(v.asset, 7);
    assert_eq!(v.balance, 0);
    v.credit(100);
    assert_eq!(v.balance, 100);
    assert_eq!(v.debit(&owner, 40), Ok(()));
    assert_eq!(v.balance, 60);
}

#[test]
fn vault_debit_beyond_balance_is_refused() {
    let owner = AuthorityHandle { asset_a: 1, asset_b: 2 };
    let mut v = Vault::new(7, owner);
    v.credit(100);
    assert_eq!(v.debit(&owner, 101), Err(ErrorCode::InsufficientVaultBalance));
    assert_eq!(v.balance, 100);
}

#[test]
fn bonding_curve_opens_with_full_supply_on_the_curve() {
    let c = BondingCurve::create(11, 42);
    assert_eq!(c.creator, 11);
    assert_eq!(c.mint, 42);
    assert_eq!(c.virtual_sol_reserves, LAUNCH_VIRTUAL_QUOTE);
    assert_eq!(c.virtual_sol_reserves, 30_000_000_000);
    assert_eq!(c.virtual_token_reserves, LAUNCH_TOKEN_SUPPLY);
    assert_eq!(c.real_sol_reserves, 0);
    assert_eq!(c.real_token_reserves, LAUNCH_TOKEN_SUPPLY);
    assert_eq!(c.token_total_supply, 1_000_000_000_000_000);
}

#[test]
fn lending_pool_opens_empty() {
    let p = LendingPool::init_pool(3, 42, 9, 75);
    assert_eq!(p.authority, 3);
    assert_eq!(p.mint, 42);
    assert_eq!(p.vault, 9);
    assert_eq!(p.total_deposit, 0);
    assert_eq!(p.total_borrow, 0);
    assert_eq!(p.ltv, 75);
}

#[test]
fn user_account_is_plain_data() {
    let u = UserAccount { owner: 8, deposit_amount: 0, borrow_amount: 0 };
    assert_eq!(u.owner, 8);
    assert_eq!(u.deposit_amount + u.borrow_amount, 0);
}
