//! Verified core of the Normal index-fund protocol: fee splitting, share
//! accounting, time-based fee accrual, component registries, rebalancing
//! plans, volume fee tiers, the adapter registry and the factory registry.
//!
//! Addresses and symbols of the ledger are represented by `u64` identifiers;
//! the surrounding contract layer maps ledger values onto them.

pub mod errors;
pub mod math;
pub mod fee;
pub mod shares;
pub mod accrual;
pub mod volume;
pub mod components;
pub mod fund;
pub mod tiers;
pub mod registry;
pub mod adapters;
pub mod index;
pub mod oracle;
pub mod execution;
pub mod factory;
pub mod privacy;
