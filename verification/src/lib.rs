//! Verified cores of a small family of ledger components: a constant-product
//! liquidity pool, a fixed-price token sale, and the helpers behind a
//! collectible-creature factory.
//!
//! The host ledger runtime (vault storage, resource minting, badges,
//! randomness) is an external collaborator.  The modules here hold the state
//! and the arithmetic of each component as plain values, so that every
//! decision and every formula is verified; the calling layer performs the
//! transfers and supplies raw random draws.

pub mod pool;
pub mod random;
pub mod token_sale;
pub mod zombie;
