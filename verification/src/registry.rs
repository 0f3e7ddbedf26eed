use vstd::prelude::*;
use crate::error::ErrorCode;
use crate::math::FEE_DENOMINATOR;
use crate::pool::{LiquidityPool, SwapDirection};

verus! {

/// Every pool is well formed, carries its own handle as its share-token
/// identifier, and no unordered pair appears twice.
pub open spec fn wf_pools(pools: Seq<LiquidityPool>) -> bool {
    &&& forall|i: int| 0 <= i < pools.len() ==> (#[trigger] pools[i]).wf()
    &&& forall|i: int| 0 <= i < pools.len() ==> (#[trigger] pools[i]).share_token == i as u64
    &&& forall|i: int, j: int|
        0 <= i < j < pools.len() ==> ((#[trigger] pools[i]).asset_a != (#[trigger] pools[j]).asset_a
            || pools[i].asset_b != pools[j].asset_b)
}

/// Some pool already serves the ordered pair `(asset_a, asset_b)`.
pub open spec fn has_pair(pools: Seq<LiquidityPool>, asset_a: u64, asset_b: u64) -> bool {
    exists|i: int|
        0 <= i < pools.len() && (#[trigger] pools[i]).asset_a == asset_a && pools[i].asset_b
            == asset_b
}

/// What `create_pool` does: rejects an identical or misordered pair before
/// anything else, then a duplicate, and otherwise appends a fresh pool whose
/// handle -- its index -- it returns.
pub open spec fn create_pool_model(pools: Seq<LiquidityPool>, asset_a: u64, asset_b: u64) -> (
    Seq<LiquidityPool>,
    Result<usize, ErrorCode>,
) {
    if asset_a == asset_b {
        (pools, Err(ErrorCode::IdenticalAssets))
    } else if asset_a > asset_b {
        (pools, Err(ErrorCode::UnorderedAssets))
    } else if has_pair(pools, asset_a, asset_b) {
        (pools, Err(ErrorCode::AlreadyExists))
    } else {
        (
            pools.push(LiquidityPool::fresh(asset_a, asset_b, pools.len() as u64)),
            Ok(pools.len() as usize),
        )
    }
}

/// The set of all pools, addressed deterministically: one handle per
/// canonical pair, duplicates refused at creation.
pub struct PoolRegistry {
    /// The pools, in creation order; a pool's handle is its index here.
    pub pools: Vec<LiquidityPool>,
}

impl PoolRegistry {
    /// Registry invariant: see `wf_pools`.
    pub open spec fn wf(self) -> bool {
        wf_pools(self.pools@)
    }

    /// An empty registry.
    pub fn new() -> (reg: Self)
        ensures
            reg.wf(),
            reg.pools@.len() == 0,
    {
        PoolRegistry { pools: Vec::new() }
    }

    /// How many pools exist.
    pub fn pool_count(&self) -> (n: usize)
        ensures
            n == self.pools@.len(),
    {
        self.pools.len()
    }

    /// The pool behind `handle`.
    pub fn get_pool(&self, handle: usize) -> (p: LiquidityPool)
        requires
            handle < self.pools@.len(),
        ensures
            p == self.pools@[handle as int],
    {
        self.pools[handle]
    }

    /// Creates the pool, its share token and its two vaults for the pair,
    /// atomically and at most once per unordered pair: the canonical order
    /// makes the pair's address deterministic, so two callers naming the
    /// same pair cannot end up with two pools and fragmented liquidity.
    pub fn create_pool(&mut self, asset_a: u64, asset_b: u64) -> (r: Result<usize, ErrorCode>)
        requires
            old(self).wf(),
        ensures
            final(self).wf(),
            (final(self).pools@, r) == create_pool_model(old(self).pools@, asset_a, asset_b),
            r is Err ==> *final(self) == *old(self),
    {
        if asset_a == asset_b {
            return Err(ErrorCode::IdenticalAssets);
        }
        if asset_a > asset_b {
            return Err(ErrorCode::UnorderedAssets);
        }
        let n = self.pools.len();
        let mut i: usize = 0;
        while i < n
            invariant
                i <= n,
                n == self.pools@.len(),
                *self == *old(self),
                old(self).wf(),
                asset_a < asset_b,
                forall|j: int|
                    0 <= j < i ==> !((#[trigger] self.pools@[j]).asset_a == asset_a
                        && self.pools@[j].asset_b == asset_b),
            decreases n - i,
        {
            let p = self.pools[i];
            if p.asset_a == asset_a && p.asset_b == asset_b {
                assert(has_pair(self.pools@, asset_a, asset_b));
                return Err(ErrorCode::AlreadyExists);
            }
            i = i + 1;
        }
        assert(!has_pair(self.pools@, asset_a, asset_b));
        let pool = LiquidityPool::create(asset_a, asset_b, n as u64);
        self.pools.push(pool);
        Ok(n)
    }

    /// `add_liquidity` on the pool behind `handle`; no other pool moves.
    pub fn add_liquidity(&mut self, handle: usize, amount_a: u64, amount_b: u64) -> (r: Result<
        u64,
        ErrorCode,
    >)
        requires
            old(self).wf(),
            handle < old(self).pools@.len(),
        ensures
            final(self).wf(),
            final(self).pools@ == old(self).pools@.update(
                handle as int,
                old(self).pools@[handle as int].add_liquidity_model(amount_a, amount_b).0,
            ),
            r == old(self).pools@[handle as int].add_liquidity_model(amount_a, amount_b).1,
    {
        let mut p = self.pools[handle];
        let r = p.add_liquidity(amount_a, amount_b);
        self.pools.set(handle, p);
        proof {
            self.lemma_update_keeps_wf(*old(self), handle as int);
        }
        r
    }

    /// `remove_liquidity` on the pool behind `handle`; no other pool moves.
    pub fn remove_liquidity(&mut self, handle: usize, share_amount: u64) -> (r: Result<
        (u64, u64),
        ErrorCode,
    >)
        requires
            old(self).wf(),
            handle < old(self).pools@.len(),
        ensures
            final(self).wf(),
            final(self).pools@ == old(self).pools@.update(
                handle as int,
                old(self).pools@[handle as int].remove_liquidity_model(share_amount).0,
            ),
            r == old(self).pools@[handle as int].remove_liquidity_model(share_amount).1,
    {
        let mut p = self.pools[handle];
        let r = p.remove_liquidity(share_amount);
        self.pools.set(handle, p);
        proof {
            self.lemma_update_keeps_wf(*old(self), handle as int);
        }
        r
    }

    /// `swap` on the pool behind `handle`; no other pool moves.
    pub fn swap(
        &mut self,
        handle: usize,
        amount_in: u64,
        min_amount_out: u64,
        direction: SwapDirection,
        fee_bps: u64,
    ) -> (r: Result<u64, ErrorCode>)
        requires
            old(self).wf(),
            handle < old(self).pools@.len(),
            fee_bps <= FEE_DENOMINATOR,
        ensures
            final(self).wf(),
            final(self).pools@ == old(self).pools@.update(
                handle as int,
                old(self).pools@[handle as int].swap_model(
                    amount_in,
                    min_amount_out,
                    direction,
                    fee_bps,
                ).0,
            ),
            r == old(self).pools@[handle as int].swap_model(
                amount_in,
                min_amount_out,
                direction,
                fee_bps,
            ).1,
    {
        let mut p = self.pools[handle];
        let r = p.swap(amount_in, min_amount_out, direction, fee_bps);
        self.pools.set(handle, p);
        proof {
            self.lemma_update_keeps_wf(*old(self), handle as int);
        }
        r
    }

    /// Replacing one pool with a well-formed pool of the same identity
    /// keeps the registry well formed.
    proof fn lemma_update_keeps_wf(self, prior: Self, k: int)
        requires
            prior.wf(),
            0 <= k < prior.pools@.len(),
            self.pools@.len() == prior.pools@.len(),
            self.pools@[k].wf(),
            self.pools@[k].same_identity(prior.pools@[k]),
            forall|i: int|
                0 <= i < prior.pools@.len() && i != k ==> self.pools@[i] == prior.pools@[i],
        ensures
            self.wf(),
    {
        assert forall|i: int| 0 <= i < self.pools@.len() implies (#[trigger] self.pools@[i]).wf()
            && self.pools@[i].share_token == i as u64 by {
            assert(prior.pools@[i].wf());
        }
    }
}

/// Law: once a pool for `(asset_a, asset_b)` exists, creating the same
/// unordered pair again fails -- in the same order with `AlreadyExists`, in
/// the swapped order with `UnorderedAssets` -- so liquidity can never
/// fragment across twin pools.
pub proof fn lemma_duplicate_pool_rejected(
    pools: Seq<LiquidityPool>,
    asset_a: u64,
    asset_b: u64,
)
    requires
        create_pool_model(pools, asset_a, asset_b).1 is Ok,
    ensures
        create_pool_model(create_pool_model(pools, asset_a, asset_b).0, asset_a, asset_b).1
            == Err::<usize, ErrorCode>(ErrorCode::AlreadyExists),
        create_pool_model(create_pool_model(pools, asset_a, asset_b).0, asset_b, asset_a).1
            == Err::<usize, ErrorCode>(ErrorCode::UnorderedAssets),
{
    let pools1 = create_pool_model(pools, asset_a, asset_b).0;
    assert(pools1[pools.len() as int].asset_a == asset_a);
    assert(has_pair(pools1, asset_a, asset_b));
}

} // verus!
