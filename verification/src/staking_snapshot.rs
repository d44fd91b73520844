//! Staking-balance snapshots: rewards for an epoch are computed from the
//! balances recorded when the epoch's snapshot was taken, so moving stake
//! afterwards cannot change them.
use vstd::prelude::*;
use crate::error_codes::ContractError;

verus! {

/// A staker's balances recorded at a ledger.
#[derive(Clone, Copy, Debug, PartialEq, Eq, Structural)]
pub struct StakingSnapshot {
    pub snapshot_id: u64,
    pub ledger_sequence: u32,
    pub staked_amount: i128,
    pub accrued_rewards: i128,
}

/// The snapshot kept under a key: the one `stored` there, or else `fresh`.
/// A snapshot, once created, is never replaced.
pub open spec fn kept_snapshot(stored: Option<StakingSnapshot>, fresh: StakingSnapshot) -> StakingSnapshot {
    match stored {
        Some(s) => s,
        None => fresh,
    }
}

/// The snapshot to hold under `(snapshot_id, staker)`: the snapshot already
/// `stored` there if there is one (snapshots are immutable), else a new one
/// recording `staked_amount` and `accrued_rewards` at `ledger`.
pub fn create_staking_snapshot(
    stored: Option<StakingSnapshot>,
    ledger: u32,
    snapshot_id: u64,
    staked_amount: i128,
    accrued_rewards: i128,
) -> (r: StakingSnapshot)
    ensures
        r == kept_snapshot(
            stored,
            StakingSnapshot { snapshot_id, ledger_sequence: ledger, staked_amount, accrued_rewards },
        ),
{
    match stored {
        Some(s) => s,
        None => StakingSnapshot { snapshot_id, ledger_sequence: ledger, staked_amount, accrued_rewards },
    }
}

/// The balance that counts for an epoch (see `get_staking_balance_for_epoch`).
pub open spec fn epoch_balance(
    epoch_id: Option<u64>,
    epoch_snapshot_id: Option<u64>,
    staker_snapshot: Option<StakingSnapshot>,
    current_staked: i128,
) -> i128 {
    match (epoch_id, epoch_snapshot_id, staker_snapshot) {
        (Some(_), Some(_), Some(s)) => s.staked_amount,
        _ => current_staked,
    }
}

/// The staked balance that counts for an epoch: the balance in the staker's
/// snapshot for the epoch's snapshot id when both are stored, else the
/// current staked balance. Never fails.
///
/// `epoch_snapshot_id` is the snapshot id stored for the epoch, and
/// `staker_snapshot` the staker's snapshot stored under that id.
pub fn get_staking_balance_for_epoch(
    epoch_id: Option<u64>,
    epoch_snapshot_id: Option<u64>,
    staker_snapshot: Option<StakingSnapshot>,
    current_staked: i128,
) -> (r: Result<i128, ContractError>)
    ensures
        r == Ok::<i128, ContractError>(
            epoch_balance(epoch_id, epoch_snapshot_id, staker_snapshot, current_staked),
        ),
{
    if let Some(_epoch) = epoch_id {
        if let Some(_id) = epoch_snapshot_id {
            if let Some(snapshot) = staker_snapshot {
                return Ok(snapshot.staked_amount);
            }
        }
    }
    Ok(current_staked)
}

/// The next snapshot id after the stored counter (starting at 1).
pub fn get_next_snapshot_id(current: Option<u64>) -> (r: u64)
    requires
        current matches Some(c) ==> c < u64::MAX,
    ensures
        r == (match current {
            Some(c) => c + 1,
            None => 1,
        }),
{
    let c: u64 = match current {
        Some(c) => c,
        None => 0,
    };
    c + 1
}

/// Snapshots for an epoch: a fresh id after the stored counter, and for each
/// staker's `(staked, accrued, stored)` the snapshot to hold under the new id
/// (the one already stored there, else `(staked, accrued)` at `ledger`), in
/// order. The caller stores them, records the id for the epoch and returns
/// it.
pub fn create_reward_epoch_snapshot(
    counter: Option<u64>,
    ledger: u32,
    balances: &Vec<(i128, i128, Option<StakingSnapshot>)>,
) -> (r: (u64, Vec<StakingSnapshot>))
    requires
        counter matches Some(c) ==> c < u64::MAX,
    ensures
        r.0 == (match counter {
            Some(c) => c + 1,
            None => 1,
        }),
        r.1@.len() == balances@.len(),
        forall|i: int|
            0 <= i < balances@.len() ==> r.1@[i] == kept_snapshot(
                balances@[i].2,
                StakingSnapshot {
                    snapshot_id: r.0,
                    ledger_sequence: ledger,
                    staked_amount: balances@[i].0,
                    accrued_rewards: balances@[i].1,
                },
            ),
{
    let snapshot_id = get_next_snapshot_id(counter);
    let mut snapshots: Vec<StakingSnapshot> = Vec::new();
    let mut i: usize = 0;
    while i < balances.len()
        invariant
            i <= balances@.len(),
            snapshots@.len() == i,
            forall|j: int|
                0 <= j < i ==> snapshots@[j] == kept_snapshot(
                    balances@[j].2,
                    StakingSnapshot {
                        snapshot_id,
                        ledger_sequence: ledger,
                        staked_amount: balances@[j].0,
                        accrued_rewards: balances@[j].1,
                    },
                ),
        decreases balances@.len() - i,
    {
        let (staked, accrued, stored) = balances[i];
        snapshots.push(create_staking_snapshot(stored, ledger, snapshot_id, staked, accrued));
        i = i + 1;
    }
    (snapshot_id, snapshots)
}

/// Snapshots are immutable: once a snapshot is held under a key, creating
/// one again under that key, with any balances at any ledger, keeps the
/// first.
pub proof fn law_staking_snapshot_immutable(first: StakingSnapshot, again: StakingSnapshot)
    ensures
        kept_snapshot(Some(kept_snapshot(None, first)), again) == first,
{
}

/// Once an epoch has a snapshot for a staker, the balance used for that
/// epoch is the snapshot's, whatever the staker's current balance.
pub proof fn law_snapshot_pins_epoch_balance(
    epoch: u64,
    id: u64,
    s: StakingSnapshot,
    current_a: i128,
    current_b: i128,
)
    ensures
        epoch_balance(Some(epoch), Some(id), Some(s), current_a) == epoch_balance(
            Some(epoch),
            Some(id),
            Some(s),
            current_b,
        ),
        epoch_balance(Some(epoch), Some(id), Some(s), current_a) == s.staked_amount,
{
}

} // verus!
