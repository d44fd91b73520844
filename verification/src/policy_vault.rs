//! Vault provisioning with a per-manager, per-epoch rate limit.
//!
//! An epoch is `ledger / epoch_length_ledgers`. Each manager may create at
//! most `max_vaults_per_epoch` vaults per epoch; the counter of a manager
//! whose stored epoch is stale reads as zero. The contract's instance storage
//! (admin and config) is modelled by `PolicyVault`; per-manager counters and
//! vault records are persistent entries that the contract layer reads and
//! writes around the calls below.
use vstd::prelude::*;
use crate::address::Addr;

verus! {

/// Ledgers to live for per-manager and vault records after each write.
pub const TTL_LEDGERS: u32 = 17_280;

#[derive(Clone, Copy, Debug, PartialEq, Eq, Structural)]
pub enum Error {
    AlreadyInitialized,
    NotInitialized,
    Unauthorized,
    InvalidConfig,
    RateLimitExceeded,
    VaultAlreadyExists,
    Overflow,
}

/// The admin-configurable rate limit applied to every manager.
#[derive(Clone, Copy, Debug, PartialEq, Eq, Structural)]
pub struct RateLimitConfig {
    pub max_vaults_per_epoch: u32,
    pub epoch_length_ledgers: u32,
}

/// A manager's counter for the epoch in progress and lifetime total.
#[derive(Clone, Copy, Debug, PartialEq, Eq, Structural)]
pub struct ManagerEpochState {
    pub epoch: u32,
    pub count: u32,
    pub total_vaults: u32,
}

/// The record of a provisioned vault.
#[derive(Debug)]
pub struct VaultRecord {
    pub manager: Addr,
    pub vault_id: u32,
    pub created_ledger: u32,
    pub epoch: u32,
}

/// The contract's instance storage.
pub struct PolicyVault {
    pub admin: Option<Addr>,
    pub config: Option<RateLimitConfig>,
}

pub open spec fn config_valid(max_vaults_per_epoch: u32, epoch_length_ledgers: u32) -> bool {
    max_vaults_per_epoch != 0 && epoch_length_ledgers != 0
}

/// The manager counter as it counts in `current_epoch`.
pub open spec fn rolled_state(stored: Option<ManagerEpochState>, current_epoch: u32) -> ManagerEpochState {
    match stored {
        Some(s) => if s.epoch == current_epoch {
            s
        } else {
            ManagerEpochState { epoch: current_epoch, count: 0, total_vaults: s.total_vaults }
        },
        None => ManagerEpochState { epoch: current_epoch, count: 0, total_vaults: 0 },
    }
}

pub open spec fn admin_check(admin: Option<Seq<u8>>, caller: Seq<u8>) -> Result<(), Error> {
    match admin {
        None => Err(Error::NotInitialized),
        Some(a) => if a == caller {
            Ok(())
        } else {
            Err(Error::Unauthorized)
        },
    }
}

pub open spec fn admin_view(v: &PolicyVault) -> Option<Seq<u8>> {
    match v.admin {
        Some(a) => Some(a@),
        None => None,
    }
}

/// Rejects configurations that would silently disable the rate limit.
pub fn validate_config(max_vaults_per_epoch: u32, epoch_length_ledgers: u32) -> (r: Result<(), Error>)
    ensures
        r == (if config_valid(max_vaults_per_epoch, epoch_length_ledgers) {
            Ok::<(), Error>(())
        } else {
            Err::<(), Error>(Error::InvalidConfig)
        }),
{
    if max_vaults_per_epoch == 0 || epoch_length_ledgers == 0 {
        return Err(Error::InvalidConfig);
    }
    Ok(())
}

/// The epoch of `ledger`.
pub fn epoch_for(ledger: u32, epoch_length_ledgers: u32) -> (r: u32)
    requires
        epoch_length_ledgers > 0,
    ensures
        r == ledger / epoch_length_ledgers,
{
    ledger / epoch_length_ledgers
}

/// A manager's counter for `current_epoch`: a stale stored epoch rolls over
/// to a zero count, keeping the lifetime total.
pub fn load_manager_state(stored: Option<ManagerEpochState>, current_epoch: u32) -> (r: ManagerEpochState)
    ensures
        r == rolled_state(stored, current_epoch),
{
    match stored {
        Some(state) => {
            if state.epoch == current_epoch {
                state
            } else {
                ManagerEpochState { epoch: current_epoch, count: 0, total_vaults: state.total_vaults }
            }
        },
        None => ManagerEpochState { epoch: current_epoch, count: 0, total_vaults: 0 },
    }
}

/// The outcome of `create_vault` given the config, ledger, stored counter
/// and whether the vault id is taken.
pub open spec fn create_result(
    config: Option<RateLimitConfig>,
    ledger: u32,
    stored: Option<ManagerEpochState>,
    vault_exists: bool,
) -> Result<ManagerEpochState, Error> {
    match config {
        None => Err(Error::NotInitialized),
        Some(c) => {
            let epoch = (ledger / c.epoch_length_ledgers) as u32;
            let s = rolled_state(stored, epoch);
            if s.count >= c.max_vaults_per_epoch {
                Err(Error::RateLimitExceeded)
            } else if vault_exists {
                Err(Error::VaultAlreadyExists)
            } else if s.total_vaults == u32::MAX {
                Err(Error::Overflow)
            } else {
                Ok(
                    ManagerEpochState {
                        epoch,
                        count: (s.count + 1) as u32,
                        total_vaults: (s.total_vaults + 1) as u32,
                    },
                )
            }
        },
    }
}

impl PolicyVault {
    /// A contract whose storage holds nothing yet.
    pub fn new() -> (r: Self)
        ensures
            r.admin is None,
            r.config is None,
    {
        PolicyVault { admin: None, config: None }
    }

    /// Stores the admin and rate limit (the admin authorizes the call).
    /// Fails, changing nothing, with `AlreadyInitialized` on a second call and
    /// with `InvalidConfig` for a zero limit or epoch length.
    pub fn initialize(&mut self, admin: Addr, max_vaults_per_epoch: u32, epoch_length_ledgers: u32) -> (r:
        Result<(), Error>)
        ensures
            old(self).admin is Some ==> r == Err::<(), Error>(Error::AlreadyInitialized)
                && *final(self) == *old(self),
            old(self).admin is None && !config_valid(max_vaults_per_epoch, epoch_length_ledgers)
                ==> r == Err::<(), Error>(Error::InvalidConfig) && *final(self) == *old(self),
            old(self).admin is None && config_valid(max_vaults_per_epoch, epoch_length_ledgers)
                ==> r is Ok && admin_view(final(self)) == Some(admin@) && final(self).config == Some(
                RateLimitConfig { max_vaults_per_epoch, epoch_length_ledgers },
            ),
    {
        if self.admin.is_some() {
            return Err(Error::AlreadyInitialized);
        }
        match validate_config(max_vaults_per_epoch, epoch_length_ledgers) {
            Ok(()) => {},
            Err(e) => return Err(e),
        }
        self.admin = Some(admin);
        self.config = Some(RateLimitConfig { max_vaults_per_epoch, epoch_length_ledgers });
        Ok(())
    }

    /// `Ok` when `admin` is the stored admin (whose authorization the caller
    /// then requires); `NotInitialized` or `Unauthorized` otherwise.
    pub fn require_admin(&self, admin: &Addr) -> (r: Result<(), Error>)
        ensures
            r == admin_check(admin_view(self), admin@),
    {
        match &self.admin {
            None => Err(Error::NotInitialized),
            Some(a) => if a.same_as(admin) {
                Ok(())
            } else {
                Err(Error::Unauthorized)
            },
        }
    }

    /// Retunes the rate limit (admin only). Fails, changing nothing, with the
    /// admin check's error or `InvalidConfig`.
    pub fn set_rate_limit(&mut self, admin: &Addr, max_vaults_per_epoch: u32, epoch_length_ledgers: u32) -> (r:
        Result<(), Error>)
        ensures
            r == (match admin_check(admin_view(old(self)), admin@) {
                Err(e) => Err(e),
                Ok(()) => if config_valid(max_vaults_per_epoch, epoch_length_ledgers) {
                    Ok(())
                } else {
                    Err(Error::InvalidConfig)
                },
            }),
            r is Err ==> *final(self) == *old(self),
            r is Ok ==> final(self).admin == old(self).admin && final(self).config == Some(
                RateLimitConfig { max_vaults_per_epoch, epoch_length_ledgers },
            ),
    {
        match self.require_admin(admin) {
            Ok(()) => {},
            Err(e) => return Err(e),
        }
        match validate_config(max_vaults_per_epoch, epoch_length_ledgers) {
            Ok(()) => {},
            Err(e) => return Err(e),
        }
        self.config = Some(RateLimitConfig { max_vaults_per_epoch, epoch_length_ledgers });
        Ok(())
    }

    /// Rotates the admin key (admin only); counters are untouched.
    pub fn set_admin(&mut self, admin: &Addr, new_admin: Addr) -> (r: Result<(), Error>)
        ensures
            r == admin_check(admin_view(old(self)), admin@),
            r is Err ==> *final(self) == *old(self),
            r is Ok ==> admin_view(final(self)) == Some(new_admin@) && final(self).config == old(
                self,
            ).config,
    {
        match self.require_admin(admin) {
            Ok(()) => {},
            Err(e) => return Err(e),
        }
        self.admin = Some(new_admin);
        Ok(())
    }

    /// Provisions vault `vault_id` for `manager` at `ledger`, given the
    /// manager's stored counter and whether the pair is already registered.
    /// Returns the vault record and the manager's new counter. Fails with
    /// `NotInitialized`, then `RateLimitExceeded` when the epoch's quota is
    /// used up, then `VaultAlreadyExists` (so a duplicate spends no quota),
    /// then `Overflow` when the lifetime total is at `u32::MAX`.
    pub fn create_vault(
        &self,
        manager: &Addr,
        vault_id: u32,
        ledger: u32,
        stored: Option<ManagerEpochState>,
        vault_exists: bool,
    ) -> (r: Result<(VaultRecord, ManagerEpochState), Error>)
        requires
            self.config matches Some(c) ==> c.epoch_length_ledgers > 0,
        ensures
            match (r, create_result(self.config, ledger, stored, vault_exists)) {
                (Ok((rec, st)), Ok(s)) => {
                    &&& st == s
                    &&& rec.manager@ == manager@
                    &&& rec.vault_id == vault_id
                    &&& rec.created_ledger == ledger
                    &&& rec.epoch == s.epoch
                },
                (Err(e), Err(f)) => e == f,
                _ => false,
            },
    {
        let config = match self.config {
            Some(c) => c,
            None => return Err(Error::NotInitialized),
        };
        let epoch = epoch_for(ledger, config.epoch_length_ledgers);
        let mut state = load_manager_state(stored, epoch);
        if state.count >= config.max_vaults_per_epoch {
            return Err(Error::RateLimitExceeded);
        }
        if vault_exists {
            return Err(Error::VaultAlreadyExists);
        }
        let record = VaultRecord { manager: manager.duplicate(), vault_id, created_ledger: ledger, epoch };
        state.count = state.count + 1;
        state.total_vaults = match state.total_vaults.checked_add(1) {
            Some(t) => t,
            None => return Err(Error::Overflow),
        };
        Ok((record, state))
    }

    /// The admin.
    pub fn get_admin(&self) -> (r: Result<&Addr, Error>)
        ensures
            match (r, self.admin) {
                (Ok(a), Some(b)) => a@ == b@,
                (Err(e), None) => e == Error::NotInitialized,
                _ => false,
            },
    {
        match &self.admin {
            Some(a) => Ok(a),
            None => Err(Error::NotInitialized),
        }
    }

    /// The active rate limit.
    pub fn get_config(&self) -> (r: Result<RateLimitConfig, Error>)
        ensures
            r == (match self.config {
                Some(c) => Ok::<RateLimitConfig, Error>(c),
                None => Err::<RateLimitConfig, Error>(Error::NotInitialized),
            }),
    {
        match self.config {
            Some(c) => Ok(c),
            None => Err(Error::NotInitialized),
        }
    }

    /// The epoch of `ledger`.
    pub fn current_epoch(&self, ledger: u32) -> (r: Result<u32, Error>)
        requires
            self.config matches Some(c) ==> c.epoch_length_ledgers > 0,
        ensures
            r == (match self.config {
                Some(c) => Ok::<u32, Error>((ledger / c.epoch_length_ledgers) as u32),
                None => Err::<u32, Error>(Error::NotInitialized),
            }),
    {
        let config = match self.get_config() {
            Ok(c) => c,
            Err(e) => return Err(e),
        };
        Ok(epoch_for(ledger, config.epoch_length_ledgers))
    }

    /// Vaults the manager created in the epoch of `ledger`.
    pub fn vaults_this_epoch(&self, ledger: u32, stored: Option<ManagerEpochState>) -> (r: Result<u32, Error>)
        requires
            self.config matches Some(c) ==> c.epoch_length_ledgers > 0,
        ensures
            r == (match self.config {
                Some(c) => Ok::<u32, Error>(
                    rolled_state(stored, (ledger / c.epoch_length_ledgers) as u32).count,
                ),
                None => Err::<u32, Error>(Error::NotInitialized),
            }),
    {
        let epoch = match self.current_epoch(ledger) {
            Ok(e) => e,
            Err(e) => return Err(e),
        };
        Ok(load_manager_state(stored, epoch).count)
    }

    /// Vaults the manager ever created.
    pub fn total_vaults(&self, ledger: u32, stored: Option<ManagerEpochState>) -> (r: Result<u32, Error>)
        requires
            self.config matches Some(c) ==> c.epoch_length_ledgers > 0,
        ensures
            r == (match self.config {
                Some(c) => Ok::<u32, Error>(
                    rolled_state(stored, (ledger / c.epoch_length_ledgers) as u32).total_vaults,
                ),
                None => Err::<u32, Error>(Error::NotInitialized),
            }),
    {
        let epoch = match self.current_epoch(ledger) {
            Ok(e) => e,
            Err(e) => return Err(e),
        };
        Ok(load_manager_state(stored, epoch).total_vaults)
    }

    /// Vaults the manager may still create in the epoch of `ledger` (0 once
    /// the quota is used up).
    pub fn remaining_quota(&self, ledger: u32, stored: Option<ManagerEpochState>) -> (r: Result<u32, Error>)
        requires
            self.config matches Some(c) ==> c.epoch_length_ledgers > 0,
        ensures
            r == (match self.config {
                Some(c) => {
                    let used = rolled_state(stored, (ledger / c.epoch_length_ledgers) as u32).count;
                    Ok::<u32, Error>(
                        if used >= c.max_vaults_per_epoch {
                            0u32
                        } else {
                            (c.max_vaults_per_epoch - used) as u32
                        },
                    )
                },
                None => Err::<u32, Error>(Error::NotInitialized),
            }),
    {
        let config = match self.get_config() {
            Ok(c) => c,
            Err(e) => return Err(e),
        };
        let epoch = epoch_for(ledger, config.epoch_length_ledgers);
        let state = load_manager_state(stored, epoch);
        Ok(config.max_vaults_per_epoch.saturating_sub(state.count))
    }
}

/// The rate limit holds: a successful creation leaves the manager's counter
/// for the current epoch at most at the limit, one above what it was, with
/// the lifetime total one higher; a stale epoch starts again from zero.
pub proof fn law_quota_respected(
    config: RateLimitConfig,
    ledger: u32,
    stored: Option<ManagerEpochState>,
    vault_exists: bool,
)
    requires
        config.epoch_length_ledgers > 0,
        create_result(Some(config), ledger, stored, vault_exists) is Ok,
    ensures
        ({
            let s = create_result(Some(config), ledger, stored, vault_exists)->Ok_0;
            let before = rolled_state(stored, (ledger / config.epoch_length_ledgers) as u32);
            &&& s.count <= config.max_vaults_per_epoch
            &&& s.count == before.count + 1
            &&& s.total_vaults == before.total_vaults + 1
            &&& !vault_exists
        }),
{
}

/// A creation rejected for a duplicate id or an exhausted quota leaves the
/// manager's counter where it was (nothing is written).
pub proof fn law_rejection_spends_no_quota(
    config: RateLimitConfig,
    ledger: u32,
    stored: Option<ManagerEpochState>,
)
    requires
        config.epoch_length_ledgers > 0,
    ensures
        create_result(Some(config), ledger, stored, true) is Err,
{
}

/// Managers' quotas are independent and refresh each epoch: a counter stored
/// for an earlier epoch counts as zero, keeping its lifetime total.
pub proof fn law_epoch_rollover(stored: ManagerEpochState, current_epoch: u32)
    requires
        stored.epoch != current_epoch,
    ensures
        rolled_state(Some(stored), current_epoch).count == 0,
        rolled_state(Some(stored), current_epoch).total_vaults == stored.total_vaults,
{
}

} // verus!
