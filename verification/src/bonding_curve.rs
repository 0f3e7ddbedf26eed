use vstd::prelude::*;

verus! {

/// Launch-time token supply: one billion whole tokens at six decimals.
pub const LAUNCH_TOKEN_SUPPLY: u64 = 1_000_000_000_000_000;

/// Launch-time virtual quote reserve that seeds the curve's starting price.
pub const LAUNCH_VIRTUAL_QUOTE: u64 = 30_000_000_000;

/// Record backing the bonding-curve token launch, a collaborator of the
/// pools rather than part of them: it reuses the constant-product shape
/// with virtual offsets added to the real reserves so the price curve is
/// continuous from zero real liquidity. Only its creation is modeled here;
/// its deposit and trade lifecycle is an external concern.
#[derive(Clone, Copy, Debug, PartialEq, Eq, Structural)]
pub struct BondingCurve {
    /// Who launched the token.
    pub creator: u64,
    /// Identifier of the launched token.
    pub mint: u64,
    /// Virtual quote-asset reserve (price offset, never paid out).
    pub virtual_sol_reserves: u64,
    /// Virtual token reserve.
    pub virtual_token_reserves: u64,
    /// Quote asset actually received so far.
    pub real_sol_reserves: u64,
    /// Tokens actually still held by the curve.
    pub real_token_reserves: u64,
    /// Total supply minted for the launch.
    pub token_total_supply: u64,
}

impl BondingCurve {
    /// The curve as it stands right after its token is created: the whole
    /// supply sits on the curve, no real quote asset has come in, and the
    /// virtual quote reserve alone sets the opening price.
    pub fn create(creator: u64, mint: u64) -> (c: BondingCurve)
        ensures
            c.creator == creator,
            c.mint == mint,
            c.virtual_sol_reserves == LAUNCH_VIRTUAL_QUOTE,
            c.virtual_token_reserves == LAUNCH_TOKEN_SUPPLY,
            c.real_sol_reserves == 0,
            c.real_token_reserves == LAUNCH_TOKEN_SUPPLY,
            c.token_total_supply == LAUNCH_TOKEN_SUPPLY,
    {
        BondingCurve {
            creator,
            mint,
            virtual_sol_reserves: LAUNCH_VIRTUAL_QUOTE,
            virtual_token_reserves: LAUNCH_TOKEN_SUPPLY,
            real_sol_reserves: 0,
            real_token_reserves: LAUNCH_TOKEN_SUPPLY,
            token_total_supply: LAUNCH_TOKEN_SUPPLY,
        }
    }
}

} // verus!
