//! Storage value types of the token contract.
use vstd::prelude::*;
use crate::address::Addr;

verus! {

/// Key of an allowance: the owner and the spender.
#[derive(Debug)]
pub struct AllowanceDataKey {
    pub from: Addr,
    pub spender: Addr,
}

/// An allowance and the ledger after which it lapses.
#[derive(Clone, Copy, Debug, PartialEq, Eq, Structural)]
pub struct AllowanceValue {
    pub amount: i128,
    pub expiration_ledger: u32,
}

/// Token metadata kept in one storage entry.
#[derive(Debug)]
pub struct TokenMetadata {
    pub name: String,
    pub symbol: String,
    pub decimals: u32,
}

/// A cached metadata URI and the ledger at which it was written.
#[derive(Debug)]
pub struct CachedUri {
    pub uri: Vec<u8>,
    pub cached_ledger: u32,
}

/// Observability view of the metadata URI cache.
#[derive(Debug)]
pub struct UriInfo {
    pub uri: Vec<u8>,
    pub cached_ledger: u32,
    pub ttl: u32,
    pub expired: bool,
}

} // verus!
