//! Typed argument sets for contract entry points, validated before any
//! state change.
use vstd::prelude::*;
use crate::address::Addr;
use crate::batch_transfer::MAX_BATCH_SIZE;
use crate::error_codes::ContractError;

verus! {

/// Longest proposal title.
pub const MAX_TITLE_LEN: u32 = 256;

/// Longest proposal description.
pub const MAX_DESCRIPTION_LEN: u32 = 4096;

/// Arguments of a batch transfer.
#[derive(Debug)]
pub struct BatchTransferArgs {
    pub sender: Addr,
    pub recipients_count: u32,
    pub total_amount: i128,
}

/// Arguments of a stake.
#[derive(Debug)]
pub struct StakeArgs {
    pub user: Addr,
    pub amount: i128,
}

/// Arguments of a proposal creation.
#[derive(Clone, Copy, Debug, PartialEq, Eq, Structural)]
pub struct CreateProposalArgs {
    pub title_len: u32,
    pub description_len: u32,
    pub voting_ends_at: u32,
    pub current_ledger: u32,
}

impl BatchTransferArgs {
    /// Valid: a positive total and between 1 and `MAX_BATCH_SIZE` recipients
    /// (the most one batch transfer takes); `InvalidInput` otherwise.
    pub fn validate(&self) -> (r: Result<(), ContractError>)
        ensures
            r == (if self.total_amount > 0 && 1 <= self.recipients_count <= MAX_BATCH_SIZE {
                Ok::<(), ContractError>(())
            } else {
                Err(ContractError::InvalidInput)
            }),
    {
        if self.total_amount <= 0 {
            return Err(ContractError::InvalidInput);
        }
        if self.recipients_count == 0 || self.recipients_count > MAX_BATCH_SIZE {
            return Err(ContractError::InvalidInput);
        }
        Ok(())
    }
}

impl StakeArgs {
    /// Valid: a positive amount; `InvalidInput` otherwise.
    pub fn validate(&self) -> (r: Result<(), ContractError>)
        ensures
            r == (if self.amount > 0 {
                Ok::<(), ContractError>(())
            } else {
                Err(ContractError::InvalidInput)
            }),
    {
        if self.amount <= 0 {
            return Err(ContractError::InvalidInput);
        }
        Ok(())
    }
}

impl CreateProposalArgs {
    /// Valid: a title of 1 to `MAX_TITLE_LEN` bytes, a description of 1 to
    /// `MAX_DESCRIPTION_LEN` bytes and a voting end after the current
    /// ledger; `InvalidInput` otherwise.
    pub fn validate(&self) -> (r: Result<(), ContractError>)
        ensures
            r == (if 1 <= self.title_len <= MAX_TITLE_LEN && 1 <= self.description_len
                <= MAX_DESCRIPTION_LEN && self.voting_ends_at > self.current_ledger {
                Ok::<(), ContractError>(())
            } else {
                Err(ContractError::InvalidInput)
            }),
    {
        if self.title_len == 0 || self.title_len > MAX_TITLE_LEN {
            return Err(ContractError::InvalidInput);
        }
        if self.description_len == 0 || self.description_len > MAX_DESCRIPTION_LEN {
            return Err(ContractError::InvalidInput);
        }
        if self.voting_ends_at <= self.current_ledger {
            return Err(ContractError::InvalidInput);
        }
        Ok(())
    }
}

} // verus!
