//! Reusable circuit-breaker core: a granular pause bitmask and a
//! multi-signature admin committee.
//!
//! The guard's three instance-storage entries are modelled by `Guard`. Every
//! guard operation is a method over that model; the contract layer performs
//! the authorizations that `signers_to_authorize` and `set_pause_by_admin`
//! call for and publishes the events.
use vstd::prelude::*;
use crate::address::{Addr, addr_views, contains_addr, copy_addrs};

verus! {

// ── Pause bitmask ────────────────────────────────────────────────────────────

/// Granular pause flags, one bit per operation.
#[derive(Clone, Copy, Debug, PartialEq, Eq, Structural)]
pub struct PauseType(u32);

pub const SWAP: u32 = 1;
pub const DEPOSIT: u32 = 2;
pub const WITHDRAW: u32 = 4;
pub const TRANSFER: u32 = 8;
pub const MINT: u32 = 16;
pub const BURN: u32 = 32;
pub const CREATE_PAIR: u32 = 64;
/// Pause staking operations.
pub const STAKE: u32 = 128;
/// Pause reward claims on the staking rewards contract.
pub const CLAIM_REWARDS: u32 = 256;
/// Pause metadata URI writes and cache invalidation.
pub const METADATA: u32 = 512;

impl View for PauseType {
    type V = u32;

    closed spec fn view(&self) -> u32 {
        self.0
    }
}

/// The bitmask after setting (`paused`) or clearing every bit of `operation`.
pub open spec fn with_paused(bits: u32, operation: u32, paused: bool) -> u32 {
    if paused {
        bits | operation
    } else {
        bits & !operation
    }
}

impl PauseType {
    pub const SWAP: u32 = 1;
    pub const DEPOSIT: u32 = 2;
    pub const WITHDRAW: u32 = 4;
    pub const TRANSFER: u32 = 8;
    pub const MINT: u32 = 16;
    pub const BURN: u32 = 32;
    pub const CREATE_PAIR: u32 = 64;
    pub const STAKE: u32 = 128;
    pub const CLAIM_REWARDS: u32 = 256;
    pub const METADATA: u32 = 512;

    /// A bitmask with the given bits.
    pub fn new(value: u32) -> (r: Self)
        ensures
            r@ == value,
    {
        PauseType(value)
    }

    /// Whether any bit of `operation` is set.
    pub fn is_paused(&self, operation: u32) -> (r: bool)
        ensures
            r == (self@ & operation != 0),
    {
        (self.0 & operation) != 0
    }

    /// Sets (`paused`) or clears every bit of `operation`; other bits stay.
    pub fn set_paused(&mut self, operation: u32, paused: bool)
        ensures
            final(self)@ == with_paused(old(self)@, operation, paused),
    {
        if paused {
            self.0 = self.0 | operation;
        } else {
            self.0 = self.0 & !operation;
        }
    }

    /// Sets every bit.
    pub fn pause_all(&mut self)
        ensures
            final(self)@ == u32::MAX,
    {
        self.0 = u32::MAX;
    }

    /// Clears every bit.
    pub fn unpause_all(&mut self)
        ensures
            final(self)@ == 0,
    {
        self.0 = 0;
    }

    /// The raw bitmask.
    pub fn as_u32(self) -> (r: u32)
        ensures
            r == self@,
    {
        self.0
    }
}

/// Pausing or resuming one operation leaves every operation with disjoint
/// bits as it was, and the operation itself reads back as set.
pub proof fn law_pause_bits_independent(bits: u32, operation: u32, other: u32, paused: bool)
    requires
        operation & other == 0,
    ensures
        (with_paused(bits, operation, paused) & other != 0) == (bits & other != 0),
        operation != 0 ==> (with_paused(bits, operation, paused) & operation != 0) == paused,
{
    if paused {
        assert(operation & other == 0 ==> ((bits | operation) & other != 0) == (bits & other != 0))
            by (bit_vector);
        assert(operation != 0 ==> (bits | operation) & operation != 0) by (bit_vector);
    } else {
        assert(operation & other == 0 ==> ((bits & !operation) & other != 0) == (bits & other
            != 0)) by (bit_vector);
        assert((bits & !operation) & operation == 0) by (bit_vector);
    }
}

// ── Errors ───────────────────────────────────────────────────────────────────

#[derive(Clone, Copy, Debug, PartialEq, Eq, Structural)]
pub enum GuardError {
    NotInitialized,
    Unauthorized,
    Paused,
    InsufficientSignatures,
    InvalidThreshold,
    AdminNotFound,
    AlreadyInitialized,
    DuplicateAdmin,
}

/// Storage keys of the guard.
#[derive(Clone, Copy, Debug, PartialEq, Eq, Structural)]
pub enum GuardDataKey {
    PauseState,
    Admins,
    SignatureThreshold,
}

// ── Sequence helpers ─────────────────────────────────────────────────────────

/// `s` without any occurrence of `x`, order kept.
pub open spec fn without(s: Seq<Seq<u8>>, x: Seq<u8>) -> Seq<Seq<u8>>
    decreases s.len(),
{
    if s.len() == 0 {
        s
    } else {
        let r = without(s.drop_last(), x);
        if s.last() == x {
            r
        } else {
            r.push(s.last())
        }
    }
}

/// `s` without any occurrence of `x` or `y`, order kept.
pub open spec fn without2(s: Seq<Seq<u8>>, x: Seq<u8>, y: Seq<u8>) -> Seq<Seq<u8>>
    decreases s.len(),
{
    if s.len() == 0 {
        s
    } else {
        let r = without2(s.drop_last(), x, y);
        if s.last() == x || s.last() == y {
            r
        } else {
            r.push(s.last())
        }
    }
}

/// Number of distinct entries of `s`.
pub open spec fn distinct_count(s: Seq<Seq<u8>>) -> nat
    decreases s.len(),
{
    if s.len() == 0 {
        0
    } else {
        distinct_count(s.drop_last()) + if s.drop_last().contains(s.last()) {
            0nat
        } else {
            1nat
        }
    }
}

pub open spec fn no_duplicates(s: Seq<Seq<u8>>) -> bool {
    forall|i: int, j: int| 0 <= i < j < s.len() ==> s[i] != s[j]
}

proof fn lemma_push_contains(r: Seq<Seq<u8>>, a: Seq<u8>, y: Seq<u8>)
    ensures
        r.push(a).contains(y) == (r.contains(y) || a == y),
{
    if r.push(a).contains(y) {
        let k = choose|k: int| 0 <= k < r.push(a).len() && r.push(a)[k] == y;
        if k < r.len() {
            assert(r[k] == y);
        }
    }
    if r.contains(y) {
        let k = choose|k: int| 0 <= k < r.len() && r[k] == y;
        assert(r.push(a)[k] == y);
    }
    if a == y {
        assert(r.push(a)[r.len() as int] == y);
    }
}

pub proof fn lemma_without_contains(s: Seq<Seq<u8>>, x: Seq<u8>, y: Seq<u8>)
    ensures
        without(s, x).contains(y) == (s.contains(y) && y != x),
        without(s, x).len() <= s.len(),
    decreases s.len(),
{
    if s.len() > 0 {
        let d = s.drop_last();
        lemma_without_contains(d, x, y);
        assert(s =~= d.push(s.last()));
        lemma_push_contains(d, s.last(), y);
        lemma_push_contains(without(d, x), s.last(), y);
    }
}

proof fn lemma_without2_contains(s: Seq<Seq<u8>>, x: Seq<u8>, y: Seq<u8>, z: Seq<u8>)
    ensures
        without2(s, x, y).contains(z) == (s.contains(z) && z != x && z != y),
        without2(s, x, y).len() <= s.len(),
    decreases s.len(),
{
    if s.len() > 0 {
        let d = s.drop_last();
        lemma_without2_contains(d, x, y, z);
        assert(s =~= d.push(s.last()));
        lemma_push_contains(d, s.last(), z);
        lemma_push_contains(without2(d, x, y), s.last(), z);
    }
}

proof fn lemma_without_no_dup(s: Seq<Seq<u8>>, x: Seq<u8>)
    requires
        no_duplicates(s),
    ensures
        no_duplicates(without(s, x)),
        s.contains(x) ==> without(s, x).len() == s.len() - 1,
        !s.contains(x) ==> without(s, x).len() == s.len(),
    decreases s.len(),
{
    if s.len() > 0 {
        let d = s.drop_last();
        assert(no_duplicates(d));
        lemma_without_no_dup(d, x);
        lemma_without_contains(d, x, s.last());
        if !d.contains(s.last()) {
        } else {
            let k = choose|k: int| 0 <= k < d.len() && d[k] == s.last();
            assert(s[k] == s[s.len() - 1]);
        }
        assert(s =~= d.push(s.last()));
        if s.contains(x) && s.last() != x {
            let k = choose|k: int| 0 <= k < s.len() && s[k] == x;
            assert(d[k] == x);
        }
        if s.last() == x {
            if d.contains(x) {
                let k = choose|k: int| 0 <= k < d.len() && d[k] == x;
                assert(s[k] == s[s.len() - 1]);
            }
        }
        let r = without(d, x);
        if s.last() != x {
            assert forall|i: int, j: int|
                0 <= i < j < r.push(s.last()).len() implies r.push(s.last())[i] != r.push(
                s.last(),
            )[j] by {
                if j == r.len() {
                    assert(r.contains(r[i]));
                }
            }
        }
    }
}

proof fn lemma_without2_no_dup(s: Seq<Seq<u8>>, x: Seq<u8>, y: Seq<u8>)
    requires
        no_duplicates(s),
    ensures
        no_duplicates(without2(s, x, y)),
    decreases s.len(),
{
    if s.len() > 0 {
        let d = s.drop_last();
        assert(no_duplicates(d));
        lemma_without2_no_dup(d, x, y);
        lemma_without2_contains(d, x, y, s.last());
        if d.contains(s.last()) {
            let k = choose|k: int| 0 <= k < d.len() && d[k] == s.last();
            assert(s[k] == s[s.len() - 1]);
        }
        let r = without2(d, x, y);
        if s.last() != x && s.last() != y {
            assert forall|i: int, j: int|
                0 <= i < j < r.push(s.last()).len() implies r.push(s.last())[i] != r.push(
                s.last(),
            )[j] by {
                if j == r.len() {
                    assert(r.contains(r[i]));
                }
            }
        }
    }
}

proof fn lemma_take_contains(s: Seq<Seq<u8>>, i: int, y: Seq<u8>)
    requires
        0 <= i <= s.len(),
    ensures
        s.take(i).contains(y) == (exists|j: int| 0 <= j < i && #[trigger] s[j] == y),
{
    if s.take(i).contains(y) {
        let k = choose|k: int| 0 <= k < i && s.take(i)[k] == y;
        assert(s[k] == y);
    }
    if exists|j: int| 0 <= j < i && #[trigger] s[j] == y {
        let j = choose|j: int| 0 <= j < i && #[trigger] s[j] == y;
        assert(s.take(i)[j] == y);
    }
}

proof fn lemma_dedup_contains(s: Seq<Seq<u8>>, y: Seq<u8>)
    ensures
        dedup(s).contains(y) == s.contains(y),
    decreases s.len(),
{
    if s.len() > 0 {
        let d = s.drop_last();
        lemma_dedup_contains(d, y);
        assert(s =~= d.push(s.last()));
        lemma_push_contains(d, s.last(), y);
        lemma_push_contains(dedup(d), s.last(), y);
    }
}

proof fn lemma_distinct_count_le(s: Seq<Seq<u8>>)
    ensures
        distinct_count(s) <= s.len(),
    decreases s.len(),
{
    if s.len() > 0 {
        lemma_distinct_count_le(s.drop_last());
    }
}

proof fn lemma_distinct_count_no_dup(s: Seq<Seq<u8>>)
    requires
        no_duplicates(s),
    ensures
        distinct_count(s) == s.len(),
    decreases s.len(),
{
    if s.len() > 0 {
        let d = s.drop_last();
        assert(no_duplicates(d));
        lemma_distinct_count_no_dup(d);
        if d.contains(s.last()) {
            let k = choose|k: int| 0 <= k < d.len() && d[k] == s.last();
            assert(s[k] == s[s.len() - 1]);
        }
    }
}

// ── Guard state ──────────────────────────────────────────────────────────────

/// The guard's instance storage: one optional field per storage key.
pub struct Guard {
    pub pause_state: Option<PauseType>,
    pub admins: Option<Vec<Addr>>,
    pub signature_threshold: Option<u32>,
}

/// Abstract state of a guard.
pub struct GuardView {
    pub pause: u32,
    pub admins: Seq<Seq<u8>>,
    pub threshold: Option<u32>,
    pub initialized: bool,
}

impl View for Guard {
    type V = GuardView;

    open spec fn view(&self) -> GuardView {
        GuardView {
            pause: match self.pause_state {
                Some(p) => p@,
                None => 0,
            },
            admins: match self.admins {
                Some(v) => addr_views(v@),
                None => Seq::empty(),
            },
            threshold: self.signature_threshold,
            initialized: self.admins is Some,
        }
    }
}

pub open spec fn threshold_or_zero(g: GuardView) -> u32 {
    match g.threshold {
        Some(t) => t,
        None => 0,
    }
}

/// The committee invariant: once initialized, `1 <= threshold <= |admins|`
/// and the committee holds no address twice.
pub open spec fn committee_valid(g: GuardView) -> bool {
    &&& g.initialized == (g.threshold is Some)
    &&& g.initialized ==> {
        &&& g.threshold is Some
        &&& 1 <= g.threshold.unwrap() <= g.admins.len()
        &&& no_duplicates(g.admins)
    }
}

/// The outcome of validating `approvers` against the committee.
pub open spec fn multi_sig_result(g: GuardView, approvers: Seq<Seq<u8>>) -> Result<(), GuardError> {
    match g.threshold {
        None => Err(GuardError::NotInitialized),
        Some(t) => if exists|i: int| 0 <= i < approvers.len() && !g.admins.contains(
            #[trigger] approvers[i],
        ) {
            Err(GuardError::Unauthorized)
        } else if distinct_count(approvers) < t {
            Err(GuardError::InsufficientSignatures)
        } else {
            Ok(())
        },
    }
}

/// `s` with every repeated entry dropped, first occurrences kept in order.
pub open spec fn dedup(s: Seq<Seq<u8>>) -> Seq<Seq<u8>>
    decreases s.len(),
{
    if s.len() == 0 {
        s
    } else if s.drop_last().contains(s.last()) {
        dedup(s.drop_last())
    } else {
        dedup(s.drop_last()).push(s.last())
    }
}

/// Length of the longest prefix of `s` made of committee members.
pub open spec fn member_prefix_len(admins: Seq<Seq<u8>>, s: Seq<Seq<u8>>) -> nat
    decreases s.len(),
{
    if s.len() == 0 {
        0
    } else {
        let p = member_prefix_len(admins, s.drop_last());
        if p == s.len() - 1 && admins.contains(s.last()) {
            p + 1
        } else {
            p
        }
    }
}

/// The approvers whose authorization a multi-sig check demands: the distinct
/// approvers before the first one outside the committee, in order (none
/// before initialization).
pub open spec fn signers_spec(g: GuardView, approvers: Seq<Seq<u8>>) -> Seq<Seq<u8>> {
    match g.threshold {
        None => Seq::empty(),
        Some(t) => dedup(approvers.take(member_prefix_len(g.admins, approvers) as int)),
    }
}

proof fn lemma_member_prefix_len(admins: Seq<Seq<u8>>, s: Seq<Seq<u8>>, i: int)
    requires
        0 <= i < s.len(),
        forall|j: int| 0 <= j < i ==> admins.contains(#[trigger] s[j]),
        !admins.contains(s[i]),
    ensures
        member_prefix_len(admins, s) == i,
    decreases s.len(),
{
    if s.len() - 1 > i {
        let d = s.drop_last();
        lemma_member_prefix_len(admins, d, i);
    } else {
        lemma_member_prefix_all(admins, s.drop_last());
    }
}

proof fn lemma_member_prefix_all(admins: Seq<Seq<u8>>, s: Seq<Seq<u8>>)
    requires
        forall|j: int| 0 <= j < s.len() ==> admins.contains(#[trigger] s[j]),
    ensures
        member_prefix_len(admins, s) == s.len(),
    decreases s.len(),
{
    if s.len() > 0 {
        let d = s.drop_last();
        assert forall|j: int| 0 <= j < d.len() implies admins.contains(#[trigger] d[j]) by {
            assert(d[j] == s[j]);
        }
        lemma_member_prefix_all(admins, d);
        assert(admins.contains(s[s.len() - 1]));
    }
}

/// Whether some address occurs twice in `v`.
fn has_duplicate_addr(v: &Vec<Addr>) -> (r: bool)
    ensures
        r == !no_duplicates(addr_views(v@)),
{
    let ghost av = addr_views(v@);
    let mut i: usize = 0;
    while i < v.len()
        invariant
            av == addr_views(v@),
            i <= v@.len(),
            forall|a: int, b: int| 0 <= a < b < i ==> av[a] != av[b],
        decreases v@.len() - i,
    {
        let mut j: usize = 0;
        while j < i
            invariant
                av == addr_views(v@),
                j <= i < v@.len(),
                forall|a: int| 0 <= a < j ==> av[a] != av[i as int],
            decreases i - j,
        {
            if v[j].same_as(&v[i]) {
                assert(av[j as int] == av[i as int]);
                return true;
            }
            j = j + 1;
        }
        i = i + 1;
    }
    false
}

impl Guard {
    /// A guard whose storage holds nothing yet.
    pub fn new() -> (r: Self)
        ensures
            r.pause_state is None,
            r.admins is None,
            r.signature_threshold is None,
            committee_valid(r@),
    {
        Guard { pause_state: None, admins: None, signature_threshold: None }
    }

    /// The pause bitmask (nothing paused when unset).
    pub fn read_state(&self) -> (r: PauseType)
        ensures
            r@ == self@.pause,
    {
        match self.pause_state {
            Some(p) => p,
            None => PauseType::new(0),
        }
    }

    /// Whether any bit of `operation` is paused.
    pub fn is_paused(&self, operation: u32) -> (r: bool)
        ensures
            r == (self@.pause & operation != 0),
    {
        self.read_state().is_paused(operation)
    }

    /// The raw pause bitmask.
    pub fn get_pause_state(&self) -> (r: u32)
        ensures
            r == self@.pause,
    {
        self.read_state().as_u32()
    }

    /// `Err(Paused)` when `operation` is paused.
    pub fn check_not_paused(&self, operation: u32) -> (r: Result<(), GuardError>)
        ensures
            r == (if self@.pause & operation != 0 {
                Err::<(), GuardError>(GuardError::Paused)
            } else {
                Ok::<(), GuardError>(())
            }),
    {
        if self.is_paused(operation) {
            Err(GuardError::Paused)
        } else {
            Ok(())
        }
    }

    /// Gate for a protected operation: it may only proceed while none of
    /// its bits are set (a paused operation aborts the call).
    pub fn ensure_not_paused(&self, operation: u32)
        requires
            self@.pause & operation == 0,
    {
    }

    /// Sets or clears `operation` in the bitmask, without authorization (the
    /// host contract authorizes at its entry point). Always `Ok`.
    pub fn set_pause_state(&mut self, operation: u32, paused: bool) -> (r: Result<(), GuardError>)
        ensures
            r is Ok,
            final(self)@.pause == with_paused(old(self)@.pause, operation, paused),
            final(self).pause_state is Some,
            final(self).admins == old(self).admins,
            final(self).signature_threshold == old(self).signature_threshold,
    {
        let mut state = self.read_state();
        state.set_paused(operation, paused);
        self.pause_state = Some(state);
        Ok(())
    }

    /// Sets or clears `operation` acting as `admin` (whose authorization the
    /// caller has required). Fails with `Unauthorized`, changing nothing, when
    /// `admin` is not on the committee.
    pub fn set_pause_by_admin(&mut self, admin: &Addr, operation: u32, paused: bool) -> (r: Result<
        (),
        GuardError,
    >)
        ensures
            !old(self)@.admins.contains(admin@) ==> r == Err::<(), GuardError>(
                GuardError::Unauthorized,
            ) && *final(self) == *old(self),
            old(self)@.admins.contains(admin@) ==> r is Ok && final(self)@.pause == with_paused(
                old(self)@.pause,
                operation,
                paused,
            ) && final(self).admins == old(self).admins && final(self).signature_threshold == old(
                self,
            ).signature_threshold,
    {
        if !self.is_admin(admin) {
            return Err(GuardError::Unauthorized);
        }
        self.set_pause_state(operation, paused)
    }

    /// Pauses every operation when `approvers` pass the multi-sig check;
    /// otherwise fails with the check's error, changing nothing.
    pub fn emergency_pause_all(&mut self, approvers: &Vec<Addr>) -> (r: Result<(), GuardError>)
        ensures
            r == multi_sig_result(old(self)@, addr_views(approvers@)),
            r is Err ==> *final(self) == *old(self),
            r is Ok ==> final(self)@.pause == u32::MAX && final(self).admins == old(self).admins
                && final(self).signature_threshold == old(self).signature_threshold,
    {
        match self.validate_multi_sig(approvers) {
            Ok(()) => {},
            Err(e) => return Err(e),
        }
        let mut state = PauseType::new(0);
        state.pause_all();
        self.pause_state = Some(state);
        Ok(())
    }

    /// Resumes every operation when `approvers` pass the multi-sig check;
    /// otherwise fails with the check's error, changing nothing.
    pub fn resume_all(&mut self, approvers: &Vec<Addr>) -> (r: Result<(), GuardError>)
        ensures
            r == multi_sig_result(old(self)@, addr_views(approvers@)),
            r is Err ==> *final(self) == *old(self),
            r is Ok ==> final(self)@.pause == 0 && final(self).admins == old(self).admins
                && final(self).signature_threshold == old(self).signature_threshold,
    {
        match self.validate_multi_sig(approvers) {
            Ok(()) => {},
            Err(e) => return Err(e),
        }
        self.pause_state = Some(PauseType::new(0));
        Ok(())
    }

    /// Clears `operation` without authorization. Always `Ok`.
    pub fn unpause(&mut self, operation: u32) -> (r: Result<(), GuardError>)
        ensures
            r is Ok,
            final(self)@.pause == with_paused(old(self)@.pause, operation, false),
            final(self).admins == old(self).admins,
            final(self).signature_threshold == old(self).signature_threshold,
    {
        self.set_pause_state(operation, false)
    }

    /// Clears the whole bitmask without authorization. Always `Ok`.
    pub fn unpause_all(&mut self) -> (r: Result<(), GuardError>)
        ensures
            r is Ok,
            final(self)@.pause == 0,
            final(self).admins == old(self).admins,
            final(self).signature_threshold == old(self).signature_threshold,
    {
        self.pause_state = Some(PauseType::new(0));
        Ok(())
    }

    /// Installs the committee and threshold with nothing paused. Fails,
    /// changing nothing, with `AlreadyInitialized` when a committee is stored,
    /// then with `InvalidThreshold` unless `1 <= threshold <= |admins|`, then
    /// with `DuplicateAdmin` when an address occurs twice in `admins`.
    pub fn init_guard(&mut self, admins: Vec<Addr>, threshold: u32) -> (r: Result<(), GuardError>)
        ensures
            r == (if old(self)@.initialized {
                Err(GuardError::AlreadyInitialized)
            } else if threshold == 0 || threshold > admins@.len() {
                Err(GuardError::InvalidThreshold)
            } else if !no_duplicates(addr_views(admins@)) {
                Err(GuardError::DuplicateAdmin)
            } else {
                Ok(())
            }),
            r is Err ==> *final(self) == *old(self),
            r is Ok ==> final(self)@.admins == addr_views(admins@) && final(self)@.threshold
                == Some(threshold) && final(self)@.pause == 0 && final(self)@.initialized,
            r is Ok ==> committee_valid(final(self)@),
    {
        if self.admins.is_some() {
            return Err(GuardError::AlreadyInitialized);
        }
        if threshold == 0 || threshold as usize > admins.len() {
            return Err(GuardError::InvalidThreshold);
        }
        if has_duplicate_addr(&admins) {
            return Err(GuardError::DuplicateAdmin);
        }
        self.admins = Some(admins);
        self.signature_threshold = Some(threshold);
        self.pause_state = Some(PauseType::new(0));
        Ok(())
    }

    /// The committee (empty before initialization).
    pub fn get_admins(&self) -> (r: Vec<Addr>)
        ensures
            addr_views(r@) == self@.admins,
    {
        match &self.admins {
            Some(v) => copy_addrs(v),
            None => {
                let r: Vec<Addr> = Vec::new();
                assert(addr_views(r@) =~= Seq::<Seq<u8>>::empty());
                r
            },
        }
    }

    /// The signature threshold (0 before initialization).
    pub fn get_threshold(&self) -> (r: u32)
        ensures
            r == threshold_or_zero(self@),
    {
        match self.signature_threshold {
            Some(t) => t,
            None => 0,
        }
    }

    /// Whether `addr` is on the committee.
    pub fn is_admin(&self, addr: &Addr) -> (r: bool)
        ensures
            r == self@.admins.contains(addr@),
    {
        match &self.admins {
            Some(v) => contains_addr(v, addr),
            None => false,
        }
    }

    /// Checks a multi-signature approval: `approvers` must all be on the
    /// committee and hold at least `threshold` distinct addresses; duplicates
    /// count once and an outsider fails the check with `Unauthorized`.
    pub fn validate_multi_sig(&self, approvers: &Vec<Addr>) -> (r: Result<(), GuardError>)
        ensures
            r == multi_sig_result(self@, addr_views(approvers@)),
    {
        let ghost av = addr_views(approvers@);
        let threshold: u32 = match self.signature_threshold {
            Some(t) => t,
            None => return Err(GuardError::NotInitialized),
        };
        let mut valid: usize = 0;
        let mut seen: Vec<Addr> = Vec::new();
        let mut i: usize = 0;
        while i < approvers.len()
            invariant
                av == addr_views(approvers@),
                i <= approvers@.len(),
                forall|j: int| 0 <= j < i ==> self@.admins.contains(#[trigger] av[j]),
                valid == distinct_count(av.take(i as int)),
                valid <= i,
                forall|x: Seq<u8>|
                    addr_views(seen@).contains(x) == (exists|j: int| 0 <= j < i && #[trigger] av[j] == x),
                self@.threshold == Some(threshold),
            decreases approvers@.len() - i,
        {
            let addr = &approvers[i];
            proof {
                assert(av.take(i + 1).drop_last() =~= av.take(i as int));
                assert(av.take(i + 1).last() == av[i as int]);
                assert(av[i as int] == addr@);
                lemma_take_contains(av, i as int, addr@);
            }
            if contains_addr(&seen, addr) {
                proof {
                    assert forall|x: Seq<u8>|
                        addr_views(seen@).contains(x) == (exists|j: int| 0 <= j < i + 1 && #[trigger] av[j] == x) by {
                        if exists|j: int| 0 <= j < i + 1 && #[trigger] av[j] == x {
                            let j = choose|j: int| 0 <= j < i + 1 && #[trigger] av[j] == x;
                            if j == i {
                                assert(addr_views(seen@).contains(addr@));
                            }
                        }
                    }
                }
                i = i + 1;
                continue;
            }
            let ghost old_seen = addr_views(seen@);
            seen.push(addr.duplicate());
            proof {
                assert(addr_views(seen@) =~= old_seen.push(addr@));
                assert forall|x: Seq<u8>|
                    addr_views(seen@).contains(x) == (exists|j: int| 0 <= j < i + 1 && #[trigger] av[j] == x) by {
                    if exists|j: int| 0 <= j < i + 1 && #[trigger] av[j] == x {
                        let j = choose|j: int| 0 <= j < i + 1 && #[trigger] av[j] == x;
                        if j < i {
                            assert(old_seen.contains(x));
                            let m = choose|m: int| 0 <= m < old_seen.len() && old_seen[m] == x;
                            assert(addr_views(seen@)[m] == x);
                        } else {
                            assert(addr_views(seen@)[old_seen.len() as int] == x);
                        }
                    }
                    if addr_views(seen@).contains(x) {
                        let m = choose|m: int| 0 <= m < addr_views(seen@).len() && addr_views(seen@)[m] == x;
                        if m < old_seen.len() {
                            assert(old_seen[m] == x);
                            assert(old_seen.contains(x));
                        } else {
                            assert(av[i as int] == x);
                        }
                    }
                }
            }
            if self.is_admin(addr) {
                valid = valid + 1;
            } else {
                proof {
                    assert(!self@.admins.contains(av[i as int]));
                }
                return Err(GuardError::Unauthorized);
            }
            i = i + 1;
        }
        proof {
            assert(av.take(approvers@.len() as int) =~= av);
            assert(!(exists|k: int| 0 <= k < av.len() && !self@.admins.contains(#[trigger] av[k])));
        }
        if valid < threshold as usize {
            Err(GuardError::InsufficientSignatures)
        } else {
            Ok(())
        }
    }

    /// The approvers whose authorization a multi-sig check over `approvers`
    /// demands, in the order it demands them.
    pub fn signers_to_authorize(&self, approvers: &Vec<Addr>) -> (r: Vec<Addr>)
        ensures
            addr_views(r@) == signers_spec(self@, addr_views(approvers@)),
    {
        let ghost av = addr_views(approvers@);
        let mut res: Vec<Addr> = Vec::new();
        let threshold: u32 = match self.signature_threshold {
            Some(t) => t,
            None => {
                assert(addr_views(res@) =~= Seq::<Seq<u8>>::empty());
                return res;
            },
        };
        let mut i: usize = 0;
        while i < approvers.len()
            invariant
                av == addr_views(approvers@),
                i <= approvers@.len(),
                forall|j: int| 0 <= j < i ==> self@.admins.contains(#[trigger] av[j]),
                addr_views(res@) == dedup(av.take(i as int)),
                self@.threshold == Some(threshold),
            decreases approvers@.len() - i,
        {
            let addr = &approvers[i];
            proof {
                assert(av.take(i + 1).drop_last() =~= av.take(i as int));
                assert(av.take(i + 1).last() == av[i as int]);
                assert(av[i as int] == addr@);
            }
            if !self.is_admin(addr) {
                proof {
                    lemma_member_prefix_len(self@.admins, av, i as int);
                }
                return res;
            }
            proof {
                lemma_dedup_contains(av.take(i as int), addr@);
            }
            if !contains_addr(&res, addr) {
                let ghost old_res = addr_views(res@);
                res.push(addr.duplicate());
                assert(addr_views(res@) =~= old_res.push(addr@));
            }
            i = i + 1;
        }
        proof {
            lemma_member_prefix_all(self@.admins, av);
            assert(av.take(approvers@.len() as int) =~= av);
        }
        res
    }

    /// Adds `new_admin` to the committee when `approvers` pass the multi-sig
    /// check (a no-op for an existing member); otherwise fails with the
    /// check's error, changing nothing.
    pub fn add_admin(&mut self, approvers: &Vec<Addr>, new_admin: Addr) -> (r: Result<(), GuardError>)
        ensures
            r == multi_sig_result(old(self)@, addr_views(approvers@)),
            r is Err ==> *final(self) == *old(self),
            r is Ok && old(self)@.admins.contains(new_admin@) ==> *final(self) == *old(self),
            r is Ok && !old(self)@.admins.contains(new_admin@) ==> final(self)@.admins == old(
                self,
            )@.admins.push(new_admin@) && final(self)@.initialized,
            final(self)@.pause == old(self)@.pause,
            final(self).signature_threshold == old(self).signature_threshold,
            committee_valid(old(self)@) ==> committee_valid(final(self)@),
    {
        match self.validate_multi_sig(approvers) {
            Ok(()) => {},
            Err(e) => return Err(e),
        }
        let mut admins = self.get_admins();
        if !contains_addr(&admins, &new_admin) {
            let ghost old_admins = addr_views(admins@);
            admins.push(new_admin);
            proof {
                assert(addr_views(admins@) =~= old_admins.push(new_admin@));
                if committee_valid(old(self)@) && old(self)@.initialized {
                    let na = addr_views(admins@);
                    assert forall|i: int, j: int| 0 <= i < j < na.len() implies na[i] != na[j] by {
                        if j == na.len() - 1 {
                            assert(old_admins.contains(na[i]));
                        }
                    }
                }
            }
            self.admins = Some(admins);
        }
        Ok(())
    }

    /// Removes `admin` from the committee when `approvers` pass the multi-sig
    /// check. Fails, changing nothing, with the check's error, then with
    /// `InvalidThreshold` when the committee is no larger than the threshold,
    /// then with `AdminNotFound` when `admin` is not a member.
    pub fn remove_admin(&mut self, approvers: &Vec<Addr>, admin: &Addr) -> (r: Result<(), GuardError>)
        ensures
            r == (if multi_sig_result(old(self)@, addr_views(approvers@)) is Err {
                multi_sig_result(old(self)@, addr_views(approvers@))
            } else if old(self)@.admins.len() <= threshold_or_zero(old(self)@) {
                Err(GuardError::InvalidThreshold)
            } else if !old(self)@.admins.contains(admin@) {
                Err(GuardError::AdminNotFound)
            } else {
                Ok(())
            }),
            r is Err ==> *final(self) == *old(self),
            r is Ok ==> final(self)@.admins == without(old(self)@.admins, admin@)
                && final(self)@.initialized,
            final(self)@.pause == old(self)@.pause,
            final(self).signature_threshold == old(self).signature_threshold,
            committee_valid(old(self)@) ==> committee_valid(final(self)@),
    {
        match self.validate_multi_sig(approvers) {
            Ok(()) => {},
            Err(e) => return Err(e),
        }
        let admins = self.get_admins();
        let ghost av = addr_views(admins@);
        let threshold = self.get_threshold();
        if admins.len() <= threshold as usize {
            return Err(GuardError::InvalidThreshold);
        }
        let mut new_admins: Vec<Addr> = Vec::new();
        let mut found = false;
        let mut i: usize = 0;
        while i < admins.len()
            invariant
                av == addr_views(admins@),
                i <= admins@.len(),
                addr_views(new_admins@) == without(av.take(i as int), admin@),
                found == av.take(i as int).contains(admin@),
            decreases admins@.len() - i,
        {
            proof {
                assert(av.take(i + 1).drop_last() =~= av.take(i as int));
                assert(av.take(i + 1).last() == av[i as int]);
                lemma_push_contains(av.take(i as int), av[i as int], admin@);
                assert(av.take(i + 1) =~= av.take(i as int).push(av[i as int]));
            }
            if !admins[i].same_as(admin) {
                let ghost old_new = addr_views(new_admins@);
                new_admins.push(admins[i].duplicate());
                assert(addr_views(new_admins@) =~= old_new.push(av[i as int]));
            } else {
                found = true;
            }
            i = i + 1;
        }
        proof {
            assert(av.take(admins@.len() as int) =~= av);
        }
        if !found {
            return Err(GuardError::AdminNotFound);
        }
        proof {
            if committee_valid(old(self)@) && old(self)@.initialized {
                lemma_without_no_dup(av, admin@);
            }
        }
        self.admins = Some(new_admins);
        Ok(())
    }

    /// Replaces `old_admin` by `new_admin` when `approvers` pass the multi-sig
    /// check; when `new_admin` is already a member this only removes
    /// `old_admin`. Fails, changing nothing, with the check's error, then with
    /// `AdminNotFound` when `old_admin` is not a member, then with
    /// `InvalidThreshold` when the new committee would be smaller than the
    /// threshold.
    pub fn rotate_admin(&mut self, approvers: &Vec<Addr>, old_admin: &Addr, new_admin: Addr) -> (r:
        Result<(), GuardError>)
        ensures
            r == (if multi_sig_result(old(self)@, addr_views(approvers@)) is Err {
                multi_sig_result(old(self)@, addr_views(approvers@))
            } else if !old(self)@.admins.contains(old_admin@) {
                Err(GuardError::AdminNotFound)
            } else if without2(old(self)@.admins, old_admin@, new_admin@).len() + 1
                < threshold_or_zero(old(self)@) {
                Err(GuardError::InvalidThreshold)
            } else {
                Ok(())
            }),
            r is Err ==> *final(self) == *old(self),
            r is Ok ==> final(self)@.admins == without2(
                old(self)@.admins,
                old_admin@,
                new_admin@,
            ).push(new_admin@) && final(self)@.initialized,
            final(self)@.pause == old(self)@.pause,
            final(self).signature_threshold == old(self).signature_threshold,
            committee_valid(old(self)@) ==> committee_valid(final(self)@),
    {
        match self.validate_multi_sig(approvers) {
            Ok(()) => {},
            Err(e) => return Err(e),
        }
        let admins = self.get_admins();
        let ghost av = addr_views(admins@);
        let mut new_admins: Vec<Addr> = Vec::new();
        let mut found = false;
        let mut i: usize = 0;
        while i < admins.len()
            invariant
                av == addr_views(admins@),
                i <= admins@.len(),
                addr_views(new_admins@) == without2(av.take(i as int), old_admin@, new_admin@),
                found == av.take(i as int).contains(old_admin@),
                new_admins@.len() <= i,
            decreases admins@.len() - i,
        {
            proof {
                assert(av.take(i + 1).drop_last() =~= av.take(i as int));
                assert(av.take(i + 1).last() == av[i as int]);
                lemma_push_contains(av.take(i as int), av[i as int], old_admin@);
                assert(av.take(i + 1) =~= av.take(i as int).push(av[i as int]));
            }
            if admins[i].same_as(old_admin) {
                found = true;
            } else if !admins[i].same_as(&new_admin) {
                let ghost old_new = addr_views(new_admins@);
                new_admins.push(admins[i].duplicate());
                assert(addr_views(new_admins@) =~= old_new.push(av[i as int]));
            }
            i = i + 1;
        }
        proof {
            assert(av.take(admins@.len() as int) =~= av);
        }
        if !found {
            return Err(GuardError::AdminNotFound);
        }
        let ghost kept = addr_views(new_admins@);
        new_admins.push(new_admin);
        proof {
            assert(addr_views(new_admins@) =~= kept.push(new_admin@));
        }
        let threshold = self.get_threshold();
        if new_admins.len() < threshold as usize {
            return Err(GuardError::InvalidThreshold);
        }
        proof {
            if committee_valid(old(self)@) && old(self)@.initialized {
                lemma_without2_no_dup(av, old_admin@, new_admin@);
                lemma_without2_contains(av, old_admin@, new_admin@, new_admin@);
                let na = addr_views(new_admins@);
                assert forall|i: int, j: int| 0 <= i < j < na.len() implies na[i] != na[j] by {
                    if j == na.len() - 1 {
                        assert(kept.contains(na[i]));
                    } else {
                        assert(na[i] == kept[i] && na[j] == kept[j]);
                    }
                }
            }
        }
        self.admins = Some(new_admins);
        Ok(())
    }
}

/// A multi-signature approval only succeeds when every approver is on the
/// committee and at least `threshold` distinct approvers signed.
pub proof fn law_threshold_enforced(g: GuardView, approvers: Seq<Seq<u8>>)
    requires
        multi_sig_result(g, approvers) is Ok,
    ensures
        g.threshold is Some,
        distinct_count(approvers) >= g.threshold.unwrap(),
        forall|i: int| 0 <= i < approvers.len() ==> g.admins.contains(#[trigger] approvers[i]),
{
}

/// Repeating one signer never makes up a quorum: a list made of a single
/// address counts as one signature.
pub proof fn law_duplicate_signer_counts_once(g: GuardView, a: Seq<u8>, n: nat)
    requires
        n >= 1,
        g.threshold matches Some(t) && t >= 2 && n >= t,
        g.admins.contains(a),
    ensures
        multi_sig_result(g, Seq::new(n, |i: int| a)) == Err::<(), GuardError>(
            GuardError::InsufficientSignatures,
        ),
    decreases n,
{
    lemma_distinct_count_const(a, n);
    let s = Seq::new(n, |i: int| a);
    assert(!(exists|i: int| 0 <= i < s.len() && !g.admins.contains(#[trigger] s[i])));
}

proof fn lemma_distinct_count_const(a: Seq<u8>, n: nat)
    requires
        n >= 1,
    ensures
        distinct_count(Seq::new(n, |i: int| a)) == 1,
    decreases n,
{
    let s = Seq::new(n, |i: int| a);
    assert(s.last() == a);
    if n == 1 {
        assert(s.drop_last() =~= Seq::<Seq<u8>>::empty());
        assert(!s.drop_last().contains(a));
        assert(distinct_count(s.drop_last()) == 0);
    } else {
        lemma_distinct_count_const(a, (n - 1) as nat);
        assert(s.drop_last() =~= Seq::new((n - 1) as nat, |i: int| a));
        assert(s.drop_last()[0] == a);
        assert(s.drop_last().contains(a));
    }
}

/// A removed admin is revoked: it is no longer on the committee, cannot set
/// a pause on its own, and any approval list that names it fails with
/// `Unauthorized`.
pub proof fn law_removed_admin_is_revoked(
    g: GuardView,
    removed: Seq<u8>,
    old_admins: Seq<Seq<u8>>,
    approvers: Seq<Seq<u8>>,
)
    requires
        g.admins == without(old_admins, removed),
        g.threshold is Some,
        approvers.contains(removed),
    ensures
        !g.admins.contains(removed),
        multi_sig_result(g, approvers) == Err::<(), GuardError>(GuardError::Unauthorized),
{
    lemma_without_contains(old_admins, removed, removed);
    let k = choose|k: int| 0 <= k < approvers.len() && approvers[k] == removed;
    assert(!g.admins.contains(approvers[k]));
}

} // verus!
