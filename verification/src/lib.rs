//! An automated-market-maker pool state machine: canonical pool creation,
//! custodial vaults, liquidity-share accounting, and constant-product swaps.
//!
//! Every operation is a single atomic read-modify-write over one pool's
//! state: it either fully commits or returns an error and leaves the pool
//! exactly as it was. The contracts pin down the arithmetic (integer, with
//! explicit overflow failures) and the financial invariants (the reserve
//! product never decreases across a swap; shares always represent a
//! proportional claim on both reserves).

pub mod error;
pub mod math;
pub mod vault;
pub mod pool;
pub mod registry;
pub mod bonding_curve;
pub mod lending;
