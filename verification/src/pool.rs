use vstd::prelude::*;
use vstd::arithmetic::div_mod::lemma_div_multiples_vanish;
use crate::error::ErrorCode;
use crate::math::{
    effective_in, floor_sqrt, integer_sqrt, lemma_div_bounds, lemma_div_cross_eq, lemma_div_le,
    lemma_div_lt, lemma_mul_le, lemma_swap_product_core, shares_for_deposit, swap_output,
    FEE_DENOMINATOR,
};
use crate::vault::{AuthorityHandle, Vault};

verus! {

/// Which asset plays the input role in a swap.
#[derive(Clone, Copy, Debug, PartialEq, Eq, Structural)]
pub enum SwapDirection {
    /// The caller pays asset A and receives asset B.
    AToB,
    /// The caller pays asset B and receives asset A.
    BToA,
}

/// One trading pair: its canonical identity, the two custodial vaults whose
/// balances are the reserves, and the supply of the pool's share token.
///
/// The identity fields never change after creation; only the two vault
/// balances and `lp_supply` move, and only through `add_liquidity`,
/// `remove_liquidity` and `swap`, each of which is all-or-nothing.
#[derive(Clone, Copy, Debug, PartialEq, Eq, Structural)]
pub struct LiquidityPool {
    /// Lower asset of the pair (canonical order).
    pub asset_a: u64,
    /// Higher asset of the pair.
    pub asset_b: u64,
    /// Identifier of the fungible share token this pool mints and burns.
    pub share_token: u64,
    /// The capability that alone may debit this pool's vaults.
    pub authority: AuthorityHandle,
    /// Custody of the pool's asset-A reserve.
    pub vault_a: Vault,
    /// Custody of the pool's asset-B reserve.
    pub vault_b: Vault,
    /// Total minted units of the share token.
    pub lp_supply: u64,
}

impl LiquidityPool {
    /// The pool's asset-A reserve, as held by its vault.
    pub open spec fn reserve_a(self) -> int {
        self.vault_a.balance as int
    }

    /// The pool's asset-B reserve, as held by its vault.
    pub open spec fn reserve_b(self) -> int {
        self.vault_b.balance as int
    }

    /// Total share supply.
    pub open spec fn supply(self) -> int {
        self.lp_supply as int
    }

    /// The reserve that takes the swap input under `direction`.
    pub open spec fn reserve_in(self, direction: SwapDirection) -> int {
        if direction is AToB {
            self.reserve_a()
        } else {
            self.reserve_b()
        }
    }

    /// The reserve that pays the swap output under `direction`.
    pub open spec fn reserve_out(self, direction: SwapDirection) -> int {
        if direction is AToB {
            self.reserve_b()
        } else {
            self.reserve_a()
        }
    }

    /// Well-formedness: the pair is canonically ordered, both vaults hold
    /// the right asset under the pool's own authority, and the share supply
    /// is zero exactly when the pool holds nothing.
    pub open spec fn wf(self) -> bool {
        &&& self.asset_a < self.asset_b
        &&& self.authority == (AuthorityHandle { asset_a: self.asset_a, asset_b: self.asset_b })
        &&& self.vault_a.asset == self.asset_a
        &&& self.vault_b.asset == self.asset_b
        &&& self.vault_a.owner == self.authority
        &&& self.vault_b.owner == self.authority
        &&& (self.lp_supply == 0 ==> self.reserve_a() == 0 && self.reserve_b() == 0)
        &&& (self.lp_supply > 0 ==> self.reserve_a() > 0 && self.reserve_b() > 0)
    }

    /// The identity fields -- everything but reserves and supply -- agree.
    pub open spec fn same_identity(self, other: Self) -> bool {
        &&& self.asset_a == other.asset_a
        &&& self.asset_b == other.asset_b
        &&& self.share_token == other.share_token
        &&& self.authority == other.authority
        &&& self.vault_a.asset == other.vault_a.asset
        &&& self.vault_a.owner == other.vault_a.owner
        &&& self.vault_b.asset == other.vault_b.asset
        &&& self.vault_b.owner == other.vault_b.owner
    }

    /// The same pool with new reserves and supply.
    pub open spec fn with_state(self, reserve_a: u64, reserve_b: u64, lp_supply: u64) -> Self {
        LiquidityPool {
            vault_a: Vault { balance: reserve_a, ..self.vault_a },
            vault_b: Vault { balance: reserve_b, ..self.vault_b },
            lp_supply,
            ..self
        }
    }

    /// A freshly created pool for the canonical pair: empty vaults owned by
    /// the pool's own authority and zero share supply.
    pub open spec fn fresh(asset_a: u64, asset_b: u64, share_token: u64) -> Self {
        let authority = AuthorityHandle { asset_a, asset_b };
        LiquidityPool {
            asset_a,
            asset_b,
            share_token,
            authority,
            vault_a: Vault { asset: asset_a, owner: authority, balance: 0 },
            vault_b: Vault { asset: asset_b, owner: authority, balance: 0 },
            lp_supply: 0,
        }
    }

    /// Allocates a pool and its two vaults for an already-validated
    /// canonical pair. Pair validation and duplicate detection are the
    /// registry's task.
    pub fn create(asset_a: u64, asset_b: u64, share_token: u64) -> (p: Self)
        requires
            asset_a < asset_b,
        ensures
            p == Self::fresh(asset_a, asset_b, share_token),
            p.wf(),
    {
        let authority = AuthorityHandle { asset_a, asset_b };
        LiquidityPool {
            asset_a,
            asset_b,
            share_token,
            authority,
            vault_a: Vault::new(asset_a, authority),
            vault_b: Vault::new(asset_b, authority),
            lp_supply: 0,
        }
    }

    /// What `add_liquidity` does: the pool afterwards and the result.
    ///
    /// A first deposit mints the floor square root of the amounts' product,
    /// so the initial share value is ratio-neutral. A follow-up deposit must
    /// match the pool ratio exactly and mints the proportional claim. Every
    /// error leaves the pool as it was.
    pub open spec fn add_liquidity_model(self, amount_a: u64, amount_b: u64) -> (
        LiquidityPool,
        Result<u64, ErrorCode>,
    ) {
        let ra = self.reserve_a();
        let rb = self.reserve_b();
        let s = self.supply();
        if s == 0 {
            let minted = floor_sqrt(amount_a * amount_b);
            if minted == 0 {
                (self, Err(ErrorCode::ZeroLiquidity))
            } else {
                (self.with_state(amount_a, amount_b, minted as u64), Ok(minted as u64))
            }
        } else if amount_a * rb != amount_b * ra {
            (self, Err(ErrorCode::RatioMismatch))
        } else {
            let minted = shares_for_deposit(amount_a as int, amount_b as int, ra, rb, s);
            if minted == 0 {
                (self, Err(ErrorCode::ZeroLiquidity))
            } else if minted > u64::MAX || s + minted > u64::MAX || ra + amount_a > u64::MAX || rb
                + amount_b > u64::MAX {
                (self, Err(ErrorCode::ArithmeticOverflow))
            } else {
                (
                    self.with_state(
                        (ra + amount_a) as u64,
                        (rb + amount_b) as u64,
                        (s + minted) as u64,
                    ),
                    Ok(minted as u64),
                )
            }
        }
    }

    /// Deposits `amount_a` and `amount_b`, mints the corresponding shares,
    /// and returns how many were minted. All constraints are checked before
    /// the two vault credits, so a failed call changes nothing.
    pub fn add_liquidity(&mut self, amount_a: u64, amount_b: u64) -> (r: Result<u64, ErrorCode>)
        requires
            old(self).wf(),
        ensures
            final(self).wf(),
            final(self).same_identity(*old(self)),
            (*final(self), r) == old(self).add_liquidity_model(amount_a, amount_b),
            r is Err ==> *final(self) == *old(self),
    {
        let ra = self.vault_a.balance;
        let rb = self.vault_b.balance;
        let s = self.lp_supply;
        if s == 0 {
            proof {
                lemma_mul_le(amount_a as int, u64::MAX as int, amount_b as int, u64::MAX as int);
            }
            let product: u128 = (amount_a as u128) * (amount_b as u128);
            let minted = integer_sqrt(product);
            if minted == 0 {
                return Err(ErrorCode::ZeroLiquidity);
            }
            proof {
                // a zero amount on either side would have made the root zero
                assert(minted * minted <= amount_a * amount_b);
                assert(amount_a > 0 && amount_b > 0) by (nonlinear_arith)
                    requires
                        1 <= minted as int,
                        (minted as int) * (minted as int) <= (amount_a as int) * (amount_b as int),
                        0 <= amount_a,
                        0 <= amount_b,
                ;
            }
            self.vault_a.credit(amount_a);
            self.vault_b.credit(amount_b);
            self.lp_supply = minted;
            Ok(minted)
        } else {
            proof {
                lemma_mul_le(amount_a as int, u64::MAX as int, rb as int, u64::MAX as int);
                lemma_mul_le(amount_b as int, u64::MAX as int, ra as int, u64::MAX as int);
                lemma_mul_le(amount_a as int, u64::MAX as int, s as int, u64::MAX as int);
            }
            if (amount_a as u128) * (rb as u128) != (amount_b as u128) * (ra as u128) {
                return Err(ErrorCode::RatioMismatch);
            }
            let minted128: u128 = (amount_a as u128) * (s as u128) / (ra as u128);
            proof {
                // both proportional claims agree when the ratio matches
                assert((amount_a * s) * rb == (amount_b * s) * ra) by (nonlinear_arith)
                    requires
                        (amount_a as int) * (rb as int) == (amount_b as int) * (ra as int),
                ;
                lemma_div_cross_eq(amount_a * s, ra as int, amount_b * s, rb as int);
                assert(minted128 as int == shares_for_deposit(
                    amount_a as int,
                    amount_b as int,
                    ra as int,
                    rb as int,
                    s as int,
                ));
            }
            if minted128 == 0 {
                return Err(ErrorCode::ZeroLiquidity);
            }
            if minted128 > (u64::MAX as u128) {
                return Err(ErrorCode::ArithmeticOverflow);
            }
            let minted: u64 = minted128 as u64;
            if minted > u64::MAX - s {
                return Err(ErrorCode::ArithmeticOverflow);
            }
            if amount_a > u64::MAX - ra {
                return Err(ErrorCode::ArithmeticOverflow);
            }
            if amount_b > u64::MAX - rb {
                return Err(ErrorCode::ArithmeticOverflow);
            }
            self.vault_a.credit(amount_a);
            self.vault_b.credit(amount_b);
            self.lp_supply = s + minted;
            Ok(minted)
        }
    }

    /// What `remove_liquidity` does: burns the shares and pays out the
    /// proportional claim on each reserve, rounded down. Every error leaves
    /// the pool as it was.
    pub open spec fn remove_liquidity_model(self, share_amount: u64) -> (
        LiquidityPool,
        Result<(u64, u64), ErrorCode>,
    ) {
        let ra = self.reserve_a();
        let rb = self.reserve_b();
        let s = self.supply();
        if share_amount > s {
            (self, Err(ErrorCode::InsufficientShares))
        } else if share_amount == 0 {
            (self, Ok((0u64, 0u64)))
        } else {
            let out_a = share_amount * ra / s;
            let out_b = share_amount * rb / s;
            (
                self.with_state(
                    (ra - out_a) as u64,
                    (rb - out_b) as u64,
                    (s - share_amount) as u64,
                ),
                Ok((out_a as u64, out_b as u64)),
            )
        }
    }

    /// Burns `share_amount` shares and debits both vaults by the burned
    /// fraction of each reserve, rounded down. The share supply bounds any
    /// holder's balance, so a request beyond it is refused as
    /// `InsufficientShares`; the caller's own holding is checked by the
    /// share-token ledger outside this core.
    pub fn remove_liquidity(&mut self, share_amount: u64) -> (r: Result<(u64, u64), ErrorCode>)
        requires
            old(self).wf(),
        ensures
            final(self).wf(),
            final(self).same_identity(*old(self)),
            (*final(self), r) == old(self).remove_liquidity_model(share_amount),
            r is Err ==> *final(self) == *old(self),
    {
        let s = self.lp_supply;
        if share_amount > s {
            return Err(ErrorCode::InsufficientShares);
        }
        if share_amount == 0 {
            return Ok((0, 0));
        }
        let ra = self.vault_a.balance;
        let rb = self.vault_b.balance;
        proof {
            lemma_mul_le(share_amount as int, u64::MAX as int, ra as int, u64::MAX as int);
            lemma_mul_le(share_amount as int, u64::MAX as int, rb as int, u64::MAX as int);
        }
        let out_a128: u128 = (share_amount as u128) * (ra as u128) / (s as u128);
        let out_b128: u128 = (share_amount as u128) * (rb as u128) / (s as u128);
        proof {
            lemma_div_bounds(share_amount * ra, s as int);
            lemma_div_bounds(share_amount * rb, s as int);
            if share_amount < s {
                // a partial burn leaves something of each reserve
                assert(share_amount * ra < ra * s && share_amount * rb < rb * s)
                    by (nonlinear_arith)
                    requires
                        0 <= share_amount < s,
                        0 < ra,
                        0 < rb,
                ;
                lemma_div_lt(share_amount * ra, s as int, ra as int);
                lemma_div_lt(share_amount * rb, s as int, rb as int);
            } else {
                // burning the whole supply pays out both reserves exactly
                lemma_div_multiples_vanish(ra as int, s as int);
                lemma_div_multiples_vanish(rb as int, s as int);
                assert(share_amount * ra == s * ra && share_amount * rb == s * rb);
            }
            assert(share_amount * ra <= ra * s && share_amount * rb <= rb * s)
                by (nonlinear_arith)
                requires
                    0 <= share_amount <= s,
                    0 <= ra,
                    0 <= rb,
            ;
            lemma_div_le(share_amount * ra, s as int, ra as int);
            lemma_div_le(share_amount * rb, s as int, rb as int);
        }
        let out_a: u64 = out_a128 as u64;
        let out_b: u64 = out_b128 as u64;
        let authority = self.authority;
        match self.vault_a.debit(&authority, out_a) {
            Ok(_) => {},
            Err(_) => {
                proof {
                    assert(false);
                }
            },
        }
        match self.vault_b.debit(&authority, out_b) {
            Ok(_) => {},
            Err(_) => {
                proof {
                    assert(false);
                }
            },
        }
        self.lp_supply = s - share_amount;
        Ok((out_a, out_b))
    }

    /// What `swap` does: prices the input with the constant-product formula
    /// after the fee, enforces the slippage floor, then credits the input
    /// vault with the whole input (the fee stays in the reserves) and debits
    /// the output vault. Every error leaves the pool as it was.
    pub open spec fn swap_model(
        self,
        amount_in: u64,
        min_amount_out: u64,
        direction: SwapDirection,
        fee_bps: u64,
    ) -> (LiquidityPool, Result<u64, ErrorCode>) {
        let rin = self.reserve_in(direction);
        let rout = self.reserve_out(direction);
        if amount_in == 0 {
            (self, Err(ErrorCode::ZeroAmount))
        } else if self.lp_supply == 0 {
            (self, Err(ErrorCode::ZeroLiquidity))
        } else {
            let out = swap_output(rin, rout, effective_in(amount_in as int, fee_bps as int));
            if out < min_amount_out {
                (self, Err(ErrorCode::SlippageExceeded))
            } else if rin + amount_in > u64::MAX {
                (self, Err(ErrorCode::ArithmeticOverflow))
            } else {
                let p = if direction is AToB {
                    self.with_state((rin + amount_in) as u64, (rout - out) as u64, self.lp_supply)
                } else {
                    self.with_state((rout - out) as u64, (rin + amount_in) as u64, self.lp_supply)
                };
                (p, Ok(out as u64))
            }
        }
    }

    /// Swaps `amount_in` of the input asset for as much of the output asset
    /// as the constant-product rule allows, after deducting a fee of
    /// `fee_bps` basis points from the priced input. Fails, leaving the pool
    /// untouched, on a zero input, an empty pool, an output below
    /// `min_amount_out`, or an input reserve that would no longer fit.
    pub fn swap(
        &mut self,
        amount_in: u64,
        min_amount_out: u64,
        direction: SwapDirection,
        fee_bps: u64,
    ) -> (r: Result<u64, ErrorCode>)
        requires
            old(self).wf(),
            fee_bps <= FEE_DENOMINATOR,
        ensures
            final(self).wf(),
            final(self).same_identity(*old(self)),
            (*final(self), r) == old(self).swap_model(
                amount_in,
                min_amount_out,
                direction,
                fee_bps,
            ),
            r is Err ==> *final(self) == *old(self),
    {
        if amount_in == 0 {
            return Err(ErrorCode::ZeroAmount);
        }
        if self.lp_supply == 0 {
            return Err(ErrorCode::ZeroLiquidity);
        }
        let rin: u64;
        let rout: u64;
        match direction {
            SwapDirection::AToB => {
                rin = self.vault_a.balance;
                rout = self.vault_b.balance;
            },
            SwapDirection::BToA => {
                rin = self.vault_b.balance;
                rout = self.vault_a.balance;
            },
        }
        proof {
            lemma_mul_le(
                amount_in as int,
                u64::MAX as int,
                (FEE_DENOMINATOR - fee_bps) as int,
                FEE_DENOMINATOR as int,
            );
            lemma_swap_product_core(rin as int, rout as int, amount_in as int, fee_bps as int);
        }
        let eff128: u128 = (amount_in as u128) * ((FEE_DENOMINATOR - fee_bps) as u128) / (
        FEE_DENOMINATOR as u128);
        proof {
            assert(eff128 as int == effective_in(amount_in as int, fee_bps as int));
            lemma_mul_le(eff128 as int, u64::MAX as int, rout as int, u64::MAX as int);
        }
        let amount_out128: u128 = eff128 * (rout as u128) / ((rin as u128) + eff128);
        proof {
            assert(amount_out128 as int == swap_output(
                rin as int,
                rout as int,
                effective_in(amount_in as int, fee_bps as int),
            ));
        }
        let amount_out: u64 = amount_out128 as u64;
        if amount_out < min_amount_out {
            return Err(ErrorCode::SlippageExceeded);
        }
        if amount_in > u64::MAX - rin {
            return Err(ErrorCode::ArithmeticOverflow);
        }
        let authority = self.authority;
        match direction {
            SwapDirection::AToB => {
                self.vault_a.credit(amount_in);
                match self.vault_b.debit(&authority, amount_out) {
                    Ok(_) => {},
                    Err(_) => {
                        proof {
                            assert(false);
                        }
                    },
                }
            },
            SwapDirection::BToA => {
                self.vault_b.credit(amount_in);
                match self.vault_a.debit(&authority, amount_out) {
                    Ok(_) => {},
                    Err(_) => {
                        proof {
                            assert(false);
                        }
                    },
                }
            },
        }
        Ok(amount_out)
    }
}

/// Law: a swap that succeeds never lowers the product of the two reserves,
/// whatever the fee -- the pool never loses value to a trade.
pub proof fn lemma_swap_product_never_decreases(
    p: LiquidityPool,
    amount_in: u64,
    min_amount_out: u64,
    direction: SwapDirection,
    fee_bps: u64,
)
    requires
        p.wf(),
        fee_bps <= FEE_DENOMINATOR,
        p.swap_model(amount_in, min_amount_out, direction, fee_bps).1 is Ok,
    ensures
        ({
            let q = p.swap_model(amount_in, min_amount_out, direction, fee_bps).0;
            q.reserve_in(direction) * q.reserve_out(direction) >= p.reserve_in(direction)
                * p.reserve_out(direction)
        }),
{
    lemma_swap_product_core(
        p.reserve_in(direction),
        p.reserve_out(direction),
        amount_in as int,
        fee_bps as int,
    );
}

/// Law: with no fee, a successful swap preserves the product of the
/// reserves exactly whenever the constant-product division leaves no
/// remainder. (With a remainder the rounded-down output leaves the residue
/// in the pool, so the product can only gain.)
pub proof fn lemma_swap_product_exact_without_fee(
    p: LiquidityPool,
    amount_in: u64,
    min_amount_out: u64,
    direction: SwapDirection,
)
    requires
        p.wf(),
        p.swap_model(amount_in, min_amount_out, direction, 0).1 is Ok,
        (amount_in * p.reserve_out(direction)) % (p.reserve_in(direction) + amount_in) == 0,
    ensures
        ({
            let q = p.swap_model(amount_in, min_amount_out, direction, 0).0;
            q.reserve_in(direction) * q.reserve_out(direction) == p.reserve_in(direction)
                * p.reserve_out(direction)
        }),
{
    lemma_swap_product_core(
        p.reserve_in(direction),
        p.reserve_out(direction),
        amount_in as int,
        0,
    );
}

/// Law: with a positive fee, a successful swap strictly increases the
/// product of the reserves -- the fee accrues to the pool.
pub proof fn lemma_swap_product_grows_with_fee(
    p: LiquidityPool,
    amount_in: u64,
    min_amount_out: u64,
    direction: SwapDirection,
    fee_bps: u64,
)
    requires
        p.wf(),
        0 < fee_bps <= FEE_DENOMINATOR,
        p.swap_model(amount_in, min_amount_out, direction, fee_bps).1 is Ok,
    ensures
        ({
            let q = p.swap_model(amount_in, min_amount_out, direction, fee_bps).0;
            q.reserve_in(direction) * q.reserve_out(direction) > p.reserve_in(direction)
                * p.reserve_out(direction)
        }),
{
    lemma_swap_product_core(
        p.reserve_in(direction),
        p.reserve_out(direction),
        amount_in as int,
        fee_bps as int,
    );
}

/// Law: removing liquidity and immediately re-depositing exactly the
/// amounts withdrawn restores the pool -- same reserves, same supply -- and
/// mints back exactly the burned shares. It holds whenever the burned
/// fraction divides both reserves evenly (no rounding dust) and does not
/// drain the pool; a payout that rounds down re-enters at a ratio the pool
/// no longer quotes and is refused instead.
pub proof fn lemma_remove_add_round_trip(p: LiquidityPool, share_amount: u64)
    requires
        p.wf(),
        0 < share_amount < p.lp_supply,
        (share_amount * p.reserve_a()) % p.supply() == 0,
        (share_amount * p.reserve_b()) % p.supply() == 0,
    ensures
        ({
            let (p1, r1) = p.remove_liquidity_model(share_amount);
            let (p2, r2) = p1.add_liquidity_model(r1->Ok_0.0, r1->Ok_0.1);
            &&& r1 is Ok
            &&& r2 == Ok::<u64, ErrorCode>(share_amount)
            &&& p2 == p
        }),
{
    let s = share_amount as int;
    let supply = p.supply();
    let ra = p.reserve_a();
    let rb = p.reserve_b();
    let out_a = s * ra / supply;
    let out_b = s * rb / supply;
    lemma_div_bounds(s * ra, supply);
    lemma_div_bounds(s * rb, supply);
    assert(supply * out_a == s * ra && supply * out_b == s * rb) by {
        vstd::arithmetic::div_mod::lemma_fundamental_div_mod(s * ra, supply);
        vstd::arithmetic::div_mod::lemma_fundamental_div_mod(s * rb, supply);
    };
    assert(s * ra < ra * supply && s * rb < rb * supply) by (nonlinear_arith)
        requires
            0 <= s < supply,
            0 < ra,
            0 < rb,
    ;
    lemma_div_lt(s * ra, supply, ra);
    lemma_div_lt(s * rb, supply, rb);
    let ra1 = ra - out_a;
    let rb1 = rb - out_b;
    let s1 = supply - s;
    // what came out re-enters exactly at the pool's remaining ratio
    assert(out_a * rb1 == out_b * ra1) by (nonlinear_arith)
        requires
            supply * out_a == s * ra,
            supply * out_b == s * rb,
            0 < supply,
            ra1 == ra - out_a,
            rb1 == rb - out_b,
    ;
    // and each proportional claim works out to the burned share count
    assert(out_a * s1 == ra1 * s && out_b * s1 == rb1 * s) by (nonlinear_arith)
        requires
            supply * out_a == s * ra,
            supply * out_b == s * rb,
            s1 == supply - s,
            ra1 == ra - out_a,
            rb1 == rb - out_b,
    ;
    lemma_div_multiples_vanish(s, ra1);
    lemma_div_multiples_vanish(s, rb1);
    assert(out_a * s1 / ra1 == s);
    assert(out_b * s1 / rb1 == s);
    let p1 = p.remove_liquidity_model(share_amount).0;
    let p2 = p1.add_liquidity_model((out_a as u64), (out_b as u64)).0;
    assert(p2.vault_a == p.vault_a);
    assert(p2.vault_b == p.vault_b);
    assert(p2 == p);
}

} // verus!
