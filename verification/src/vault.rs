use vstd::prelude::*;
use crate::error::ErrorCode;

verus! {

/// The capability that alone authorizes transfers out of a pool's vaults.
///
/// It is derived deterministically from the pool's canonical asset pair and
/// held only by the pool's own engines; custody compares it against the
/// vault's owner before any funds leave. No external caller is ever handed
/// one for a vault it does not own.
#[derive(Clone, Copy, Debug, PartialEq, Eq, Structural)]
pub struct AuthorityHandle {
    /// Lower asset of the pair the capability was derived from.
    pub asset_a: u64,
    /// Higher asset of the pair.
    pub asset_b: u64,
}

/// A custodial balance account for one asset, owned by a pool's authority.
///
/// The balance moves only through `credit` and `debit`, so it always equals
/// the net of deposits attributed to this asset minus withdrawals -- the
/// conservation law of the ledger.
#[derive(Clone, Copy, Debug, PartialEq, Eq, Structural)]
pub struct Vault {
    /// The asset this vault holds.
    pub asset: u64,
    /// The only capability that may debit this vault.
    pub owner: AuthorityHandle,
    /// Current balance.
    pub balance: u64,
}

impl Vault {
    /// Opens an empty vault for `asset` under `owner`'s exclusive control.
    pub fn new(asset: u64, owner: AuthorityHandle) -> (v: Vault)
        ensures
            v.asset == asset,
            v.owner == owner,
            v.balance == 0,
    {
        Vault { asset, owner, balance: 0 }
    }

    /// The user-to-vault transfer leg: adds `amount` to the balance. Needs
    /// only the sender's own authorization, so no capability is taken; the
    /// engines prove the sum fits before they commit a transaction.
    pub fn credit(&mut self, amount: u64)
        requires
            old(self).balance + amount <= u64::MAX,
        ensures
            final(self).asset == old(self).asset,
            final(self).owner == old(self).owner,
            final(self).balance == old(self).balance + amount,
    {
        self.balance = self.balance + amount;
    }

    /// The vault-to-user transfer leg: removes `amount` from the balance.
    /// The caller must present the owning pool's capability; no other code
    /// path moves funds out. Refused, leaving the vault untouched, if the
    /// vault does not hold `amount` -- correct engine logic proves that this
    /// branch is never reached.
    pub fn debit(&mut self, authority: &AuthorityHandle, amount: u64) -> (r: Result<(), ErrorCode>)
        requires
            *authority == old(self).owner,
        ensures
            final(self).asset == old(self).asset,
            final(self).owner == old(self).owner,
            amount <= old(self).balance ==> r is Ok && final(self).balance == old(
                self,
            ).balance - amount,
            amount > old(self).balance ==> r == Err::<(), ErrorCode>(
                ErrorCode::InsufficientVaultBalance,
            ) && *final(self) == *old(self),
    {
        if amount > self.balance {
            return Err(ErrorCode::InsufficientVaultBalance);
        }
        self.balance = self.balance - amount;
        Ok(())
    }
}

} // verus!
