//! Voting-power snapshots: a voter's power is fixed when a proposal is
//! created, so moving tokens afterwards cannot change a vote's weight.
use vstd::prelude::*;

verus! {

/// A voter's voting power recorded at a ledger.
#[derive(Clone, Copy, Debug, PartialEq, Eq, Structural)]
pub struct VotingSnapshot {
    pub snapshot_id: u64,
    pub ledger_sequence: u32,
    pub voting_power: i128,
}

/// The snapshot kept under a key: the one `stored` there, or else `fresh`.
/// A snapshot, once created, is never replaced.
pub open spec fn kept_snapshot(stored: Option<VotingSnapshot>, fresh: VotingSnapshot) -> VotingSnapshot {
    match stored {
        Some(s) => s,
        None => fresh,
    }
}

/// The snapshot to hold under `(snapshot_id, voter)`: the snapshot already
/// `stored` there if there is one (snapshots are immutable), else a new one
/// recording `current_power` at `ledger`.
pub fn create_voting_snapshot(
    stored: Option<VotingSnapshot>,
    current_power: i128,
    ledger: u32,
    snapshot_id: u64,
) -> (r: VotingSnapshot)
    ensures
        r == kept_snapshot(
            stored,
            VotingSnapshot { snapshot_id, ledger_sequence: ledger, voting_power: current_power },
        ),
{
    match stored {
        Some(s) => s,
        None => VotingSnapshot { snapshot_id, ledger_sequence: ledger, voting_power: current_power },
    }
}

/// The voting power recorded in a stored snapshot, if one is stored.
pub fn read_snapshot_voting_power(stored: Option<VotingSnapshot>) -> (r: Option<i128>)
    ensures
        r == (match stored {
            Some(s) => Some(s.voting_power),
            None => None,
        }),
{
    match stored {
        Some(s) => Some(s.voting_power),
        None => None,
    }
}

/// The voting power that counts for a proposal (see
/// `get_voting_power_for_proposal`).
pub open spec fn proposal_power(
    proposal_snapshot: Option<u64>,
    voter_snapshot: Option<VotingSnapshot>,
    current_power: i128,
) -> i128 {
    match (proposal_snapshot, voter_snapshot) {
        (Some(_), Some(s)) => s.voting_power,
        _ => current_power,
    }
}

/// The voting power that counts for a proposal: the power in the voter's
/// snapshot for the proposal's snapshot id when both exist, else the voter's
/// current power.
///
/// `proposal_snapshot` is the snapshot id stored for the proposal and
/// `voter_snapshot` the voter's snapshot stored under that id.
pub fn get_voting_power_for_proposal(
    proposal_snapshot: Option<u64>,
    voter_snapshot: Option<VotingSnapshot>,
    current_power: i128,
) -> (r: i128)
    ensures
        r == proposal_power(proposal_snapshot, voter_snapshot, current_power),
{
    if let Some(_id) = proposal_snapshot {
        if let Some(power) = read_snapshot_voting_power(voter_snapshot) {
            return power;
        }
    }
    current_power
}

/// The next snapshot id after the stored counter (starting at 1).
pub fn get_next_snapshot_id(current: Option<u64>) -> (r: u64)
    requires
        current matches Some(c) ==> c < u64::MAX,
    ensures
        r == (match current {
            Some(c) => c + 1,
            None => 1,
        }),
{
    let c: u64 = match current {
        Some(c) => c,
        None => 0,
    };
    c + 1
}

/// For each voter's `(current power, stored snapshot)`, in order, the
/// snapshot to hold under `snapshot_id` (see `create_voting_snapshot`).
pub fn create_bulk_snapshots(
    powers: &Vec<(i128, Option<VotingSnapshot>)>,
    ledger: u32,
    snapshot_id: u64,
) -> (r: Vec<VotingSnapshot>)
    ensures
        r@.len() == powers@.len(),
        forall|i: int|
            0 <= i < r@.len() ==> r@[i] == kept_snapshot(
                powers@[i].1,
                VotingSnapshot { snapshot_id, ledger_sequence: ledger, voting_power: powers@[i].0 },
            ),
{
    let mut r: Vec<VotingSnapshot> = Vec::new();
    let mut i: usize = 0;
    while i < powers.len()
        invariant
            i <= powers@.len(),
            r@.len() == i,
            forall|j: int|
                0 <= j < i ==> r@[j] == kept_snapshot(
                    powers@[j].1,
                    VotingSnapshot {
                        snapshot_id,
                        ledger_sequence: ledger,
                        voting_power: powers@[j].0,
                    },
                ),
        decreases powers@.len() - i,
    {
        let (power, stored) = powers[i];
        r.push(create_voting_snapshot(stored, power, ledger, snapshot_id));
        i = i + 1;
    }
    r
}

/// Snapshots are immutable: once a snapshot is held under a key, creating
/// one again under that key, with any power at any ledger, keeps the first.
pub proof fn law_voting_snapshot_immutable(first: VotingSnapshot, again: VotingSnapshot)
    ensures
        kept_snapshot(Some(kept_snapshot(None, first)), again) == first,
{
}

/// Once a proposal has a snapshot of a voter, the voter's power on that
/// proposal is the snapshot's, whatever the voter holds now: moving tokens
/// after the proposal was created changes nothing.
pub proof fn law_snapshot_pins_voting_power(
    id: u64,
    s: VotingSnapshot,
    current_a: i128,
    current_b: i128,
)
    ensures
        proposal_power(Some(id), Some(s), current_a) == proposal_power(Some(id), Some(s), current_b),
        proposal_power(Some(id), Some(s), current_a) == s.voting_power,
{
}

} // verus!
