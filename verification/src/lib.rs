//! Verified core logic of the Perigee Soroban contract suite.

pub mod error_codes;
pub mod address;
pub mod crypto;
pub mod decimal_norm;
pub mod migrations;
pub mod consistency;
pub mod bridge;
pub mod twap_oracle;
pub mod voting_snapshot;
pub mod token_storage;
pub mod guards;
pub mod batch_transfer;
pub mod policy_vault;
pub mod cross_chain;
pub mod event_indexer;
pub mod proxy;
pub mod bootstrap;
pub mod rewards_calc;
pub mod token_uri;
pub mod audit_trail;
pub mod staking_snapshot;
pub mod reentrancy;
pub mod typed_args;
