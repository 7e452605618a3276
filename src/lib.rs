//! Self-custodial exchange of assets on a shared ledger: a bilateral escrow,
//! a constant-product liquidity pool and a fixed-price token sale, each
//! stated and proved over plain models of asset containers and parcels.

pub mod assets;
pub mod escrow;
pub mod radiswap;
pub mod token_sale;
