//! Storage schema versioning for contract upgrades.
//!
//! Migrations are forward-only and idempotent: running the pending steps from
//! the stored version brings the schema to `MigrationVersion::current()`, and
//! running them again writes nothing.
use vstd::prelude::*;
use crate::error_codes::ContractError;

verus! {

/// Stable storage key used to persist the current schema version.
#[derive(Clone, Copy, Debug, PartialEq, Eq, Structural)]
pub enum MigrationKey {
    Version,
}

/// Known schema versions (numbered 1, 2, 3).
#[derive(Clone, Copy, Debug, PartialEq, Eq, Structural)]
pub enum MigrationVersion {
    /// Initial deployment.
    V1,
    /// Configs carry an explicit pause flag.
    V2,
    /// Vault policy storage carries an audit-trail hash.
    V3,
}

/// The number of a schema version.
pub open spec fn version_number(v: MigrationVersion) -> u32 {
    match v {
        MigrationVersion::V1 => 1,
        MigrationVersion::V2 => 2,
        MigrationVersion::V3 => 3,
    }
}

/// The schema version this code writes.
pub open spec fn current_version() -> u32 {
    3
}

/// The version numbers `run_migration` writes, in order, starting from
/// `stored`.
pub open spec fn migration_writes(stored: u32) -> Seq<u32> {
    if stored >= 3 {
        Seq::empty()
    } else if stored < 2 {
        seq![2u32, 3u32]
    } else {
        seq![3u32]
    }
}

/// The version that is stored after the writes of `run_migration`.
pub open spec fn version_after(stored: u32) -> u32 {
    let w = migration_writes(stored);
    if w.len() == 0 {
        stored
    } else {
        w.last()
    }
}

impl MigrationVersion {
    /// The schema version this code expects.
    pub fn current() -> (r: u32)
        ensures
            r == current_version(),
    {
        3
    }

    /// The version with number `v`, if there is one.
    pub fn from_u32(v: u32) -> (r: Option<Self>)
        ensures
            v == 1 ==> r == Some(MigrationVersion::V1),
            v == 2 ==> r == Some(MigrationVersion::V2),
            v == 3 ==> r == Some(MigrationVersion::V3),
            (v < 1 || v > 3) ==> r is None,
            r matches Some(x) ==> version_number(x) == v,
    {
        match v {
            1 => Some(MigrationVersion::V1),
            2 => Some(MigrationVersion::V2),
            3 => Some(MigrationVersion::V3),
            _ => None,
        }
    }

    /// The number of this version.
    pub fn as_u32(self) -> (r: u32)
        ensures
            r == version_number(self),
    {
        match self {
            MigrationVersion::V1 => 1,
            MigrationVersion::V2 => 2,
            MigrationVersion::V3 => 3,
        }
    }
}

/// V1 to V2: the pause flag defaults to `false` on decode, so only the version
/// bump is needed.
fn migrate_v1_to_v2() -> (r: Result<(), ContractError>)
    ensures
        r is Ok,
{
    Ok(())
}

/// V2 to V3: the audit-trail hash is seeded lazily from the genesis value on
/// the first recorded change, so only the version bump is needed.
fn migrate_v2_to_v3() -> (r: Result<(), ContractError>)
    ensures
        r is Ok,
{
    Ok(())
}

/// The stored schema version, defaulting to V1 when none was written.
pub fn get_version(stored: Option<u32>) -> (r: u32)
    ensures
        r == (match stored {
            Some(v) => v,
            None => 1,
        }),
{
    match stored {
        Some(v) => v,
        None => 1,
    }
}

/// Applies every pending migration step to a schema stored at
/// `stored_version`, returning the version numbers written to the version key,
/// in order (one after each step).
pub fn run_migration(stored_version: u32) -> (r: Result<Vec<u32>, ContractError>)
    ensures
        r matches Ok(w) && w@ == migration_writes(stored_version),
{
    let mut writes: Vec<u32> = Vec::new();
    let target = MigrationVersion::current();
    if stored_version >= target {
        return Ok(writes);
    }
    let mut current = stored_version;
    if current < 2 {
        match migrate_v1_to_v2() {
            Ok(()) => {},
            Err(e) => return Err(e),
        }
        current = 2;
        writes.push(current);
    }
    if current < 3 {
        match migrate_v2_to_v3() {
            Ok(()) => {},
            Err(e) => return Err(e),
        }
        current = 3;
        writes.push(current);
    }
    proof {
        assert(writes@ =~= migration_writes(stored_version));
    }
    Ok(writes)
}

/// Running the migrations twice is a no-op the second time, and every run
/// leaves the schema at the current version or newer.
pub proof fn law_migration_idempotent(stored: u32)
    ensures
        migration_writes(version_after(stored)).len() == 0,
        version_after(stored) >= current_version(),
        stored <= current_version() ==> version_after(stored) == current_version(),
{
}

} // verus!
