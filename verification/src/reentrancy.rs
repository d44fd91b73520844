//! Reentrancy lock for state-changing entry points: a flag in instance
//! storage is set while a call is in progress, and a re-entrant call is
//! refused.
use vstd::prelude::*;
use crate::error_codes::ContractError;

verus! {

/// Storage key of the lock.
#[derive(Clone, Copy, Debug, PartialEq, Eq, Structural)]
pub enum ReentrancyKey {
    Lock,
}

/// The lock's stored flag (unset means unlocked).
pub struct ReentrancyGuard {
    pub locked: Option<bool>,
}

/// The outcome of acquiring the lock with stored flag `locked`, and the flag
/// afterwards.
pub open spec fn acquire_outcome(locked: Option<bool>) -> (Result<(), ContractError>, Option<bool>) {
    if locked == Some(true) {
        (Err(ContractError::Unauthorized), locked)
    } else {
        (Ok(()), Some(true))
    }
}

impl ReentrancyGuard {
    /// Whether a call is in progress.
    pub open spec fn is_locked(&self) -> bool {
        self.locked == Some(true)
    }

    /// Takes the lock; a call already in progress gets `Unauthorized` and
    /// leaves the flag as it is.
    pub fn acquire(&mut self) -> (r: Result<(), ContractError>)
        ensures
            (r, final(self).locked) == acquire_outcome(old(self).locked),
    {
        let locked = match self.locked {
            Some(b) => b,
            None => false,
        };
        if locked {
            return Err(ContractError::Unauthorized);
        }
        self.locked = Some(true);
        Ok(())
    }

    /// Releases the lock (when the guard goes out of scope).
    pub fn release(&mut self)
        ensures
            final(self).locked == Some(false),
    {
        self.locked = Some(false);
    }
}

/// While a call holds the lock, any nested acquisition is refused; once the
/// lock is released, the next acquisition succeeds.
pub proof fn law_lock_excludes_reentry(locked: Option<bool>)
    ensures
        acquire_outcome(locked).0 is Ok ==> acquire_outcome(acquire_outcome(locked).1).0 == Err::<
            (),
            ContractError,
        >(ContractError::Unauthorized),
        acquire_outcome(Some(false)).0 is Ok,
{
}

} // verus!
