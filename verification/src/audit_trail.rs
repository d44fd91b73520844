//! Append-only, tamper-evident audit trail of vault policy changes, and the
//! sweep that evicts expired vault configurations.
//!
//! Each vault's trail head is a hash chain:
//! `head_0 = 0^32`, `head_n = SHA-256(head_{n-1} || be32(ledger) || xdr(change_type))`.
//! `AuditTrail` models one vault's storage entries; the contract layer reads
//! and writes them under the vault's keys.
use vstd::prelude::*;
use soroban_sdk::Env;
use crate::address::{Addr, addr_views};
use crate::crypto::{be32, push_all, push_be32, sha256, spec_sha256, string_xdr_bytes, string_xdr};

verus! {

/// One policy change.
#[derive(Debug)]
pub struct PolicyChangeDescriptor {
    /// Short tag of the change (e.g. `add_signer`), as bytes.
    pub change_type: Vec<u8>,
    /// The vault whose policy changed.
    pub vault: Addr,
    /// Ledger at which the change was applied.
    pub ledger: u32,
}

/// One vault's audit entries.
pub struct AuditTrail {
    pub head: Option<Vec<u8>>,
    pub length: Option<u32>,
    pub expiry: Option<u32>,
}

/// The head of an empty trail: 32 zero bytes.
pub open spec fn genesis_head() -> Seq<u8> {
    Seq::new(32, |i: int| 0u8)
}

/// The bytes hashed to extend a trail with head `prev`.
pub open spec fn link_preimage(prev: Seq<u8>, ledger: u32, change_type: Seq<u8>) -> Seq<u8> {
    prev + be32(ledger) + string_xdr_bytes(change_type)
}

/// Whether a vault with stored expiry `expiry` may be evicted at `now`.
pub open spec fn evictable(expiry: u32, now: u32) -> bool {
    expiry > 0 && now >= expiry
}

/// Which entries of a sweep are evicted: an expired vault is evicted the
/// first time it is met (its expiry is gone afterwards).
pub open spec fn eviction_mask(vaults: Seq<Seq<u8>>, expiries: Seq<u32>, now: u32) -> Seq<bool>
    decreases vaults.len(),
{
    if vaults.len() == 0 || expiries.len() == 0 {
        Seq::empty()
    } else {
        let m = eviction_mask(vaults.drop_last(), expiries.drop_last(), now);
        let already = exists|j: int| 0 <= j < m.len() && vaults[j] == vaults.last() && m[j];
        m.push(evictable(expiries.last(), now) && !already)
    }
}

/// How many entries are `true`.
pub open spec fn count_true(m: Seq<bool>) -> nat
    decreases m.len(),
{
    if m.len() == 0 {
        0
    } else {
        count_true(m.drop_last()) + (if m.last() {
            1nat
        } else {
            0nat
        })
    }
}

proof fn lemma_mask_len(vaults: Seq<Seq<u8>>, expiries: Seq<u32>, now: u32)
    requires
        vaults.len() == expiries.len(),
    ensures
        eviction_mask(vaults, expiries, now).len() == vaults.len(),
    decreases vaults.len(),
{
    if vaults.len() > 0 {
        lemma_mask_len(vaults.drop_last(), expiries.drop_last(), now);
    }
}

proof fn lemma_count_true_bound(m: Seq<bool>)
    ensures
        count_true(m) <= m.len(),
    decreases m.len(),
{
    if m.len() > 0 {
        lemma_count_true_bound(m.drop_last());
    }
}

impl AuditTrail {
    /// The trail head in effect.
    pub open spec fn head_of(&self) -> Seq<u8> {
        match self.head {
            Some(h) => h@,
            None => genesis_head(),
        }
    }

    /// The number of recorded changes.
    pub open spec fn length_of(&self) -> nat {
        match self.length {
            Some(l) => l as nat,
            None => 0,
        }
    }

    /// A vault with nothing recorded.
    pub fn new() -> (r: Self)
        ensures
            r.head is None,
            r.length is None,
            r.expiry is None,
    {
        AuditTrail { head: None, length: None, expiry: None }
    }

    /// The current head (32 zero bytes before any change).
    pub fn get_trail_head(&self) -> (r: Vec<u8>)
        ensures
            r@ == self.head_of(),
    {
        match &self.head {
            Some(h) => crate::address::bytes_copy(h),
            None => {
                let r: Vec<u8> = vec![0u8; 32];
                assert(r@ =~= genesis_head());
                r
            },
        }
    }

    /// The number of recorded changes.
    pub fn get_trail_length(&self) -> (r: u32)
        ensures
            r == self.length_of(),
    {
        match self.length {
            Some(l) => l,
            None => 0,
        }
    }

    /// Extends the hash chain with `descriptor` and bumps the length; returns
    /// the new head (which the caller publishes).
    pub fn record_policy_change(&mut self, env: &Env, descriptor: &PolicyChangeDescriptor) -> (r:
        Vec<u8>)
        requires
            old(self).length_of() < u32::MAX,
            descriptor.change_type@.len() <= u32::MAX,
        ensures
            r@ == spec_sha256(
                link_preimage(old(self).head_of(), descriptor.ledger, descriptor.change_type@),
            ),
            r@.len() == 32,
            final(self).head_of() == r@,
            final(self).length_of() == old(self).length_of() + 1,
            final(self).expiry == old(self).expiry,
    {
        let prev = self.get_trail_head();
        let mut preimage: Vec<u8> = Vec::new();
        push_all(&mut preimage, &prev);
        push_be32(&mut preimage, descriptor.ledger);
        let ct = string_xdr(env, &descriptor.change_type);
        push_all(&mut preimage, &ct);
        assert(preimage@ =~= link_preimage(
            old(self).head_of(),
            descriptor.ledger,
            descriptor.change_type@,
        ));
        let new_head = sha256(env, &preimage);
        self.head = Some(crate::address::bytes_copy(&new_head));
        let prev_len = self.get_trail_length();
        self.length = Some(prev_len + 1);
        new_head
    }

    /// Registers the ledger after which the vault may be evicted.
    pub fn set_vault_expiry(&mut self, expiry_ledger: u32)
        ensures
            final(self).expiry == Some(expiry_ledger),
            final(self).head == old(self).head,
            final(self).length == old(self).length,
    {
        self.expiry = Some(expiry_ledger);
    }

    /// The registered expiry ledger (0: none).
    pub fn get_vault_expiry(&self) -> (r: u32)
        ensures
            r == (match self.expiry {
                Some(e) => e,
                None => 0u32,
            }),
    {
        match self.expiry {
            Some(e) => e,
            None => 0,
        }
    }
}

/// Sweeps `vaults` at ledger `now`, given each entry's stored expiry (0 when
/// none). Returns which entries are evicted (the caller removes their
/// entries and publishes an event for each) and how many.
pub fn evict_expired_vaults(now: u32, vaults: &Vec<Addr>, expiries: &Vec<u32>) -> (r: (
    Vec<bool>,
    u32,
))
    requires
        vaults@.len() == expiries@.len(),
        vaults@.len() <= u32::MAX,
    ensures
        r.0@ == eviction_mask(addr_views(vaults@), expiries@, now),
        r.1 == count_true(r.0@),
{
    let ghost vs = addr_views(vaults@);
    let mut mask: Vec<bool> = Vec::new();
    let mut evicted: u32 = 0;
    let mut i: usize = 0;
    while i < vaults.len()
        invariant
            vaults@.len() == expiries@.len(),
            vaults@.len() <= u32::MAX,
            vs == addr_views(vaults@),
            i <= vaults@.len(),
            mask@ == eviction_mask(vs.take(i as int), expiries@.take(i as int), now),
            mask@.len() == i,
            evicted == count_true(mask@),
        decreases vaults@.len() - i,
    {
        proof {
            assert(vs.take(i + 1).drop_last() =~= vs.take(i as int));
            assert(expiries@.take(i + 1).drop_last() =~= expiries@.take(i as int));
            assert(vs.take(i + 1).last() == vaults@[i as int]@);
            assert(expiries@.take(i + 1).last() == expiries@[i as int]);
            lemma_count_true_bound(mask@);
        }
        let mut already = false;
        let mut j: usize = 0;
        while j < i
            invariant
                i < vaults@.len(),
                mask@.len() == i,
                j <= i,
                vs == addr_views(vaults@),
                already == (exists|k: int| 0 <= k < j && vs.take(i + 1)[k] == vs.take(i + 1).last() && mask@[k]),
            decreases i - j,
        {
            proof {
                assert(vs.take(i + 1)[j as int] == vaults@[j as int]@);
                assert(vs.take(i + 1).last() == vaults@[i as int]@);
            }
            if mask[j] && vaults[j].same_as(&vaults[i]) {
                already = true;
            }
            j = j + 1;
        }
        let expiry = expiries[i];
        let evict = expiry > 0 && now >= expiry && !already;
        let ghost before = mask@;
        mask.push(evict);
        if evict {
            evicted = evicted + 1;
        }
        proof {
            assert(mask@.drop_last() =~= before);
        }
        i = i + 1;
    }
    proof {
        assert(vs.take(vaults@.len() as int) =~= vs);
        assert(expiries@.take(vaults@.len() as int) =~= expiries@);
    }
    (mask, evicted)
}

/// A sweep never evicts a vault twice, nor one whose expiry is unset or
/// still ahead.
pub proof fn law_sweep_evicts_each_expired_vault_once(
    vaults: Seq<Seq<u8>>,
    expiries: Seq<u32>,
    now: u32,
)
    requires
        vaults.len() == expiries.len(),
    ensures
        forall|i: int|
            0 <= i < vaults.len() && #[trigger] eviction_mask(vaults, expiries, now)[i]
                ==> evictable(expiries[i], now),
        forall|i: int, j: int|
            0 <= i < j < vaults.len() && vaults[i] == vaults[j] && #[trigger] eviction_mask(
                vaults,
                expiries,
                now,
            )[i] ==> !#[trigger] eviction_mask(vaults, expiries, now)[j],
    decreases vaults.len(),
{
    lemma_mask_len(vaults, expiries, now);
    if vaults.len() > 0 {
        let tv = vaults.drop_last();
        let te = expiries.drop_last();
        law_sweep_evicts_each_expired_vault_once(tv, te, now);
        lemma_mask_len(tv, te, now);
        let m = eviction_mask(tv, te, now);
        let full = eviction_mask(vaults, expiries, now);
        assert forall|i: int| 0 <= i < vaults.len() && #[trigger] full[i] implies evictable(
            expiries[i],
            now,
        ) by {
            if i < tv.len() {
                assert(full[i] == m[i]);
                assert(te[i] == expiries[i]);
            }
        }
        assert forall|i: int, j: int|
            0 <= i < j < vaults.len() && vaults[i] == vaults[j] && #[trigger] full[i] implies !#[trigger] full[j] by {
            if j < tv.len() {
                assert(full[i] == m[i] && full[j] == m[j]);
                assert(tv[i] == vaults[i] && tv[j] == vaults[j]);
            } else {
                assert(full[i] == m[i]);
                assert(tv[i] == vaults[i]);
                assert(m.len() > i && vaults[i] == vaults.last() && m[i]);
            }
        }
    }
}

} // verus!
