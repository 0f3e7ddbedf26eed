use vstd::prelude::*;

verus! {

/// Lending-pool record: a stub with deposit, borrow and loan-to-value
/// fields only. No borrow, repay or liquidation logic exists yet; the
/// record is created empty and nothing here mutates it.
#[derive(Clone, Copy, Debug, PartialEq, Eq, Structural)]
pub struct LendingPool {
    /// Administrator that opened the pool.
    pub authority: u64,
    /// Asset this pool lends.
    pub mint: u64,
    /// Identifier of the pool's custodial vault.
    pub vault: u64,
    /// Sum of all deposits.
    pub total_deposit: u64,
    /// Sum of all outstanding borrows.
    pub total_borrow: u64,
    /// Loan-to-value limit.
    pub ltv: u64,
}

/// Per-user record of the lending stub.
#[derive(Clone, Copy, Debug, PartialEq, Eq, Structural)]
pub struct UserAccount {
    /// The user this record belongs to.
    pub owner: u64,
    /// What the user has deposited.
    pub deposit_amount: u64,
    /// What the user has borrowed.
    pub borrow_amount: u64,
}

impl LendingPool {
    /// Opens an empty lending pool under `authority` for `mint`, custodied
    /// by `vault`, with nothing deposited or borrowed yet.
    pub fn init_pool(authority: u64, mint: u64, vault: u64, ltv: u64) -> (p: LendingPool)
        ensures
            p.authority == authority,
            p.mint == mint,
            p.vault == vault,
            p.total_deposit == 0,
            p.total_borrow == 0,
            p.ltv == ltv,
    {
        LendingPool { authority, mint, vault, total_deposit: 0, total_borrow: 0, ltv }
    }
}

} // verus!
