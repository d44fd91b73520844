//! Cross-chain message verification: authorized signers, per-block state
//! roots with Merkle inclusion proofs, replay protection and switchable
//! bridge protocols.
//!
//! `CrossChainVerifier` models the contract's single-valued storage entries
//! (admin, enabled protocols, signer count). Entries keyed by a signer, a
//! block height, a digest or a nonce are looked up by the contract layer and
//! passed in (by `&mut` where an operation changes them); the result of the
//! host's signature check is passed in as well.
use vstd::prelude::*;
use soroban_sdk::Env;
use crate::address::Addr;
use crate::crypto::{sha256, spec_sha256, push_all};
use crate::address::bytes_eq;
use crate::bridge::{
    BridgeProtocol, BridgeProof, CrossChainMessage, SignatureAlgorithm, digest_spec,
    hash_for_protocol, proof_valid_spec, validate_for_protocol, verify_algorithm_signature,
    key_length_ok,
};

verus! {

/// Refusals of the signer-management operations.
#[derive(Clone, Copy, Debug, PartialEq, Eq, Structural)]
pub enum SignerError {
    /// The key is already authorized.
    AlreadyAuthorized,
    /// The key is not authorized.
    NotFound,
}

/// A relayed message with its signature.
#[derive(Debug)]
pub struct SignedMessage {
    pub message: CrossChainMessage,
    pub signature: Vec<u8>,
    pub signer_public_key: Vec<u8>,
    pub algorithm: SignatureAlgorithm,
    pub revocation_nonce: u64,
}

/// The contract's single-valued storage entries.
pub struct CrossChainVerifier {
    pub admin: Option<Addr>,
    pub enabled_protocols: Option<Vec<BridgeProtocol>>,
    pub signer_count: Option<u32>,
}

/// Storage lookups and the host signature check that one verification needs.
pub struct VerificationInputs {
    /// Algorithm registered for the signer's key, if the key is authorized.
    pub signer_algorithm: Option<SignatureAlgorithm>,
    /// Stored revocation nonce of the signer's key.
    pub current_revocation_nonce: Option<u64>,
    /// Whether the host accepts the signature over the message digest.
    pub host_accepts_signature: bool,
    /// Whether the message digest is already marked processed.
    pub message_processed: bool,
    /// State root stored for the block height, if any.
    pub expected_root: Option<Vec<u8>>,
}

/// The protocols in effect: the stored list, Native alone when none is stored.
pub open spec fn enabled_of(v: &CrossChainVerifier) -> Seq<BridgeProtocol> {
    match v.enabled_protocols {
        Some(p) => p@,
        None => seq![BridgeProtocol::Native],
    }
}

/// No protocol occurs twice.
pub open spec fn protocols_distinct(s: Seq<BridgeProtocol>) -> bool {
    forall|i: int, j: int| 0 <= i < j < s.len() ==> s[i] != s[j]
}

/// The stored protocol list, empty when none is stored.
pub open spec fn stored_protocols(v: &CrossChainVerifier) -> Seq<BridgeProtocol> {
    match v.enabled_protocols {
        Some(p) => p@,
        None => Seq::empty(),
    }
}

/// Root of a Merkle path: each step hashes the running hash with the
/// sibling, the sibling first when its flag says it is the left one.
pub open spec fn merkle_root(leaf: Seq<u8>, siblings: Seq<Seq<u8>>, left: Seq<bool>) -> Seq<u8>
    decreases siblings.len(),
{
    if siblings.len() == 0 || left.len() == 0 {
        leaf
    } else {
        let h = merkle_root(leaf, siblings.drop_last(), left.drop_last());
        if left.last() {
            spec_sha256(siblings.last() + h)
        } else {
            spec_sha256(h + siblings.last())
        }
    }
}

pub open spec fn views_of(s: Seq<Vec<u8>>) -> Seq<Seq<u8>> {
    s.map_values(|v: Vec<u8>| v@)
}

/// Whether a Merkle proof reaches the stored root.
pub open spec fn merkle_ok(
    leaf: Seq<u8>,
    root: Option<Seq<u8>>,
    siblings: Seq<Seq<u8>>,
    left: Seq<bool>,
) -> bool {
    match root {
        None => false,
        Some(r) => siblings.len() == left.len() && merkle_root(leaf, siblings, left) == r,
    }
}

pub open spec fn root_view(r: Option<Vec<u8>>) -> Option<Seq<u8>> {
    match r {
        Some(v) => Some(v@),
        None => None,
    }
}

/// Whether the signer is authorized, not revoked past the message's nonce,
/// uses a key of the right length and the host accepts the signature.
pub open spec fn signature_ok(signed: &SignedMessage, inputs: &VerificationInputs) -> bool {
    match inputs.signer_algorithm {
        None => false,
        Some(alg) => {
            let current = match inputs.current_revocation_nonce {
                Some(n) => n,
                None => 0,
            };
            &&& signed.revocation_nonce >= current
            &&& key_length_ok(alg, signed.signer_public_key@.len())
            &&& inputs.host_accepts_signature
        },
    }
}

/// The same lookups with the message digest marked processed.
pub open spec fn marked_processed(i: VerificationInputs) -> VerificationInputs {
    VerificationInputs {
        signer_algorithm: i.signer_algorithm,
        current_revocation_nonce: i.current_revocation_nonce,
        host_accepts_signature: i.host_accepts_signature,
        message_processed: true,
        expected_root: i.expected_root,
    }
}

/// Every sibling is a 32-byte hash.
pub open spec fn hashes_well_formed(leaf: Seq<u8>, siblings: Seq<Vec<u8>>) -> bool {
    leaf.len() == 32 && forall|i: int| 0 <= i < siblings.len() ==> (#[trigger] siblings[i])@.len() == 32
}

/// The outcome of a full verification.
pub open spec fn verify_spec(
    v: &CrossChainVerifier,
    signed: &SignedMessage,
    protocol: BridgeProtocol,
    bridge_proof: &BridgeProof,
    inputs: &VerificationInputs,
    siblings: Seq<Seq<u8>>,
    left: Seq<bool>,
) -> bool {
    &&& enabled_of(v).contains(protocol)
    &&& bridge_proof.protocol == protocol
    &&& proof_valid_spec(protocol, &signed.message, bridge_proof)
    &&& signature_ok(signed, inputs)
    &&& !inputs.message_processed
    &&& merkle_ok(
        digest_spec(protocol, &signed.message, bridge_proof),
        root_view(inputs.expected_root),
        siblings,
        left,
    )
}

/// Whether `p` occurs in `v`.
fn contains_protocol(v: &Vec<BridgeProtocol>, p: BridgeProtocol) -> (r: bool)
    ensures
        r == v@.contains(p),
{
    let mut i: usize = 0;
    while i < v.len()
        invariant
            i <= v@.len(),
            forall|j: int| 0 <= j < i ==> v@[j] != p,
        decreases v@.len() - i,
    {
        if v[i] == p {
            return true;
        }
        i = i + 1;
    }
    false
}

/// Folds a Merkle path from `leaf` and compares with `expected_root`.
pub fn verify_merkle_proof(
    env: &Env,
    leaf: &Vec<u8>,
    expected_root: &Option<Vec<u8>>,
    proof: &Vec<Vec<u8>>,
    proof_flags: &Vec<bool>,
) -> (r: bool)
    requires
        hashes_well_formed(leaf@, proof@),
    ensures
        r == merkle_ok(leaf@, root_view(*expected_root), views_of(proof@), proof_flags@),
{
    let root = match expected_root {
        Some(root) => root,
        None => return false,
    };
    if proof.len() != proof_flags.len() {
        return false;
    }
    let mut current = leaf.clone();
    proof {
        assert(current@ =~= leaf@);
    }
    let mut i: usize = 0;
    while i < proof.len()
        invariant
            proof@.len() == proof_flags@.len(),
            i <= proof@.len(),
            current@ == merkle_root(leaf@, views_of(proof@).take(i as int), proof_flags@.take(i as int)),
        decreases proof@.len() - i,
    {
        let sibling = &proof[i];
        let is_left_sibling = proof_flags[i];
        let mut combined: Vec<u8> = Vec::new();
        if is_left_sibling {
            push_all(&mut combined, sibling);
            push_all(&mut combined, &current);
        } else {
            push_all(&mut combined, &current);
            push_all(&mut combined, sibling);
        }
        current = sha256(env, &combined);
        proof {
            let vs = views_of(proof@);
            assert(vs.take(i + 1).drop_last() =~= vs.take(i as int));
            assert(proof_flags@.take(i + 1).drop_last() =~= proof_flags@.take(i as int));
            assert(vs.take(i + 1).last() == sibling@);
            assert(proof_flags@.take(i + 1).last() == is_left_sibling);
        }
        i = i + 1;
    }
    proof {
        assert(views_of(proof@).take(proof@.len() as int) =~= views_of(proof@));
        assert(proof_flags@.take(proof@.len() as int) =~= proof_flags@);
    }
    bytes_eq(&current, root)
}

impl CrossChainVerifier {
    /// A contract whose storage holds nothing yet.
    pub fn new() -> (r: Self)
        ensures
            r.admin is None,
            r.enabled_protocols is None,
            r.signer_count is None,
    {
        CrossChainVerifier { admin: None, enabled_protocols: None, signer_count: None }
    }

    /// Stores the admin and enables the Native protocol only. A second
    /// initialization is refused by the caller ("already initialized").
    pub fn initialize(&mut self, admin: Addr)
        requires
            old(self).admin is None,
        ensures
            final(self).admin matches Some(a) && a@ == admin@,
            final(self).enabled_protocols matches Some(p) && p@ == seq![BridgeProtocol::Native],
            protocols_distinct(stored_protocols(final(self))),
            final(self).signer_count == old(self).signer_count,
    {
        self.admin = Some(admin);
        let mut protocols: Vec<BridgeProtocol> = Vec::new();
        protocols.push(BridgeProtocol::Native);
        self.enabled_protocols = Some(protocols);
    }

    /// Enables `protocol` (admin only; the caller has required the admin's
    /// authorization). Returns whether the list changed: enabling an enabled
    /// protocol is a no-op, so the list never holds a protocol twice.
    pub fn enable_bridge_protocol(&mut self, protocol: BridgeProtocol) -> (added: bool)
        requires
            old(self).admin is Some,
        ensures
            ({
                let before = stored_protocols(old(self));
                &&& added == !before.contains(protocol)
                &&& added ==> (final(self).enabled_protocols matches Some(p) && p@
                    == before.push(protocol))
                &&& !added ==> final(self).enabled_protocols == old(self).enabled_protocols
            }),
            protocols_distinct(stored_protocols(old(self))) ==> protocols_distinct(
                stored_protocols(final(self)),
            ),
            final(self).admin == old(self).admin,
            final(self).signer_count == old(self).signer_count,
    {
        let mut protocols: Vec<BridgeProtocol> = match &self.enabled_protocols {
            Some(p) => p.clone(),
            None => Vec::new(),
        };
        proof {
            if let Some(p) = old(self).enabled_protocols {
                assert(protocols@ =~= p@);
            } else {
                assert(protocols@ =~= Seq::<BridgeProtocol>::empty());
            }
        }
        if contains_protocol(&protocols, protocol) {
            return false;
        }
        let ghost before = protocols@;
        protocols.push(protocol);
        proof {
            let after = protocols@;
            if protocols_distinct(before) {
                assert forall|i: int, j: int| 0 <= i < j < after.len() implies after[i]
                    != after[j] by {
                    if j == after.len() - 1 {
                        assert(after[i] == before[i]);
                        assert(before.contains(after[i]));
                    } else {
                        assert(after[i] == before[i] && after[j] == before[j]);
                    }
                }
            }
        }
        self.enabled_protocols = Some(protocols);
        true
    }

    /// The protocols in effect (Native alone when none is stored).
    pub fn get_enabled_bridge_protocols(&self) -> (r: Vec<BridgeProtocol>)
        ensures
            r@ == enabled_of(self),
    {
        match &self.enabled_protocols {
            Some(p) => {
                let r = p.clone();
                assert(r@ =~= p@);
                r
            },
            None => {
                let mut v: Vec<BridgeProtocol> = Vec::new();
                v.push(BridgeProtocol::Native);
                assert(v@ =~= seq![BridgeProtocol::Native]);
                v
            },
        }
    }

    /// Whether `protocol` is in effect.
    pub fn is_protocol_enabled(&self, protocol: BridgeProtocol) -> (r: bool)
        ensures
            r == enabled_of(self).contains(protocol),
    {
        let protocols = self.get_enabled_bridge_protocols();
        contains_protocol(&protocols, protocol)
    }

    /// Authorizes a signer key (admin only; the caller has required the
    /// admin's authorization). `signer_algorithm` and `revocation_nonce` are
    /// the key's stored entries. A key that is already authorized is refused
    /// with `AlreadyAuthorized`, changing nothing; otherwise the key is
    /// registered with `algorithm`, its revocation nonce is set to 0 and the
    /// signer count grows by one.
    pub fn add_authorized_signer(
        &mut self,
        signer_algorithm: &mut Option<SignatureAlgorithm>,
        revocation_nonce: &mut Option<u64>,
        algorithm: SignatureAlgorithm,
    ) -> (r: Result<(), SignerError>)
        requires
            old(self).admin is Some,
            (*old(signer_algorithm)) is None ==> (old(self).signer_count matches Some(c) ==> c
                < u32::MAX),
        ensures
            (*old(signer_algorithm)) is Some ==> r == Err::<(), SignerError>(
                SignerError::AlreadyAuthorized,
            ) && *final(self) == *old(self) && *final(signer_algorithm) == *old(signer_algorithm)
                && *final(revocation_nonce) == *old(revocation_nonce),
            (*old(signer_algorithm)) is None ==> r is Ok && *final(signer_algorithm) == Some(algorithm)
                && *final(revocation_nonce) == Some(0u64) && final(self).signer_count == Some(
                (match old(self).signer_count {
                    Some(c) => c + 1,
                    None => 1,
                }) as u32,
            ),
            final(self).admin == old(self).admin,
            final(self).enabled_protocols == old(self).enabled_protocols,
    {
        if signer_algorithm.is_some() {
            return Err(SignerError::AlreadyAuthorized);
        }
        *signer_algorithm = Some(algorithm);
        *revocation_nonce = Some(0);
        let count: u32 = match self.signer_count {
            Some(c) => c,
            None => 0,
        };
        self.signer_count = Some(count + 1);
        Ok(())
    }

    /// Revokes a signer key (admin only; the caller has required the admin's
    /// authorization). `signer_algorithm` and `revocation_nonce` are the key's
    /// stored entries. An unknown key is refused with `NotFound`, changing
    /// nothing; otherwise the key leaves the signer set, its revocation nonce
    /// grows by one (from 0 when none is stored) and is returned, and the
    /// signer count drops by one (never below zero).
    pub fn remove_authorized_signer(
        &mut self,
        signer_algorithm: &mut Option<SignatureAlgorithm>,
        revocation_nonce: &mut Option<u64>,
    ) -> (r: Result<u64, SignerError>)
        requires
            old(self).admin is Some,
            (*old(signer_algorithm)) is Some ==> (*old(revocation_nonce) matches Some(n) ==> n
                < u64::MAX),
        ensures
            (*old(signer_algorithm)) is None ==> r == Err::<u64, SignerError>(SignerError::NotFound)
                && *final(self) == *old(self) && *final(signer_algorithm) == *old(signer_algorithm)
                && *final(revocation_nonce) == *old(revocation_nonce),
            (*old(signer_algorithm)) is Some ==> {
                let next = (match *old(revocation_nonce) {
                    Some(n) => n + 1,
                    None => 1,
                }) as u64;
                let c = match old(self).signer_count {
                    Some(c) => c,
                    None => 0,
                };
                &&& r == Ok::<u64, SignerError>(next)
                &&& *final(signer_algorithm) is None
                &&& *final(revocation_nonce) == Some(next)
                &&& c > 0 ==> final(self).signer_count == Some((c - 1) as u32)
                &&& c == 0 ==> final(self).signer_count == old(self).signer_count
            },
            final(self).admin == old(self).admin,
            final(self).enabled_protocols == old(self).enabled_protocols,
    {
        if signer_algorithm.is_none() {
            return Err(SignerError::NotFound);
        }
        *signer_algorithm = None;
        let nonce: u64 = match *revocation_nonce {
            Some(n) => n,
            None => 0,
        };
        let next = nonce + 1;
        *revocation_nonce = Some(next);
        let count: u32 = match self.signer_count {
            Some(c) => c,
            None => 0,
        };
        if count > 0 {
            self.signer_count = Some(count - 1);
        }
        Ok(next)
    }

    /// The number of authorized signers.
    pub fn get_signer_count(&self) -> (r: u32)
        ensures
            r == (match self.signer_count {
                Some(c) => c,
                None => 0,
            }),
    {
        match self.signer_count {
            Some(c) => c,
            None => 0,
        }
    }

    /// Signature stage: the signer must be authorized, the message's
    /// revocation nonce must not be older than the signer's, and the key and
    /// host check must pass.
    pub fn verify_signature_for_protocol(signed: &SignedMessage, inputs: &VerificationInputs) -> (r:
        bool)
        ensures
            r == signature_ok(signed, inputs),
    {
        let signer_algorithm = match inputs.signer_algorithm {
            Some(a) => a,
            None => return false,
        };
        let current_nonce: u64 = match inputs.current_revocation_nonce {
            Some(n) => n,
            None => 0,
        };
        if signed.revocation_nonce < current_nonce {
            return false;
        }
        verify_algorithm_signature(
            signer_algorithm,
            &signed.signer_public_key,
            inputs.host_accepts_signature,
        )
    }

    /// Full verification through `protocol`: the protocol must be enabled,
    /// the proof structurally valid, the signature accepted, the digest not
    /// yet processed and the Merkle proof must reach the stored root. On
    /// `true` the digest is marked processed in `inputs` (the caller stores
    /// the mark), so the same message cannot verify twice.
    pub fn verify_signed_message_with_protocol(
        &self,
        env: &Env,
        signed: &SignedMessage,
        protocol: BridgeProtocol,
        bridge_proof: &BridgeProof,
        inputs: &mut VerificationInputs,
        proof: &Vec<Vec<u8>>,
        proof_flags: &Vec<bool>,
    ) -> (r: bool)
        requires
            forall|i: int| 0 <= i < proof@.len() ==> (#[trigger] proof@[i])@.len() == 32,
        ensures
            r == verify_spec(
                self,
                signed,
                protocol,
                bridge_proof,
                old(inputs),
                views_of(proof@),
                proof_flags@,
            ),
            *final(inputs) == (if r {
                marked_processed(*old(inputs))
            } else {
                *old(inputs)
            }),
    {
        let ok = self.check_signed_message(env, signed, protocol, bridge_proof, inputs, proof, proof_flags);
        if ok {
            inputs.message_processed = true;
        }
        ok
    }

    /// The checks of `verify_signed_message_with_protocol`, without marking.
    fn check_signed_message(
        &self,
        env: &Env,
        signed: &SignedMessage,
        protocol: BridgeProtocol,
        bridge_proof: &BridgeProof,
        inputs: &VerificationInputs,
        proof: &Vec<Vec<u8>>,
        proof_flags: &Vec<bool>,
    ) -> (r: bool)
        requires
            forall|i: int| 0 <= i < proof@.len() ==> (#[trigger] proof@[i])@.len() == 32,
        ensures
            r == verify_spec(self, signed, protocol, bridge_proof, inputs, views_of(proof@), proof_flags@),
    {
        if !self.is_protocol_enabled(protocol) {
            return false;
        }
        if !validate_for_protocol(env, protocol, &signed.message, bridge_proof) {
            return false;
        }
        if !Self::verify_signature_for_protocol(signed, inputs) {
            return false;
        }
        let message_hash = hash_for_protocol(env, protocol, &signed.message, bridge_proof);
        if inputs.message_processed {
            return false;
        }
        verify_merkle_proof(env, &message_hash, &inputs.expected_root, proof, proof_flags)
    }

    /// Legacy path: verification through the Native protocol with an empty
    /// proof, marking the digest processed in `inputs` on success.
    pub fn verify_signed_message(
        &self,
        env: &Env,
        signed: &SignedMessage,
        inputs: &mut VerificationInputs,
        proof: &Vec<Vec<u8>>,
        proof_flags: &Vec<bool>,
    ) -> (r: bool)
        requires
            forall|i: int| 0 <= i < proof@.len() ==> (#[trigger] proof@[i])@.len() == 32,
        ensures
            forall|bp: BridgeProof|
                bp.protocol == BridgeProtocol::Native ==> r == #[trigger] verify_spec(
                    self,
                    signed,
                    BridgeProtocol::Native,
                    &bp,
                    old(inputs),
                    views_of(proof@),
                    proof_flags@,
                ),
            *final(inputs) == (if r {
                marked_processed(*old(inputs))
            } else {
                *old(inputs)
            }),
    {
        let ghost before = *inputs;
        let bridge_proof = crate::bridge::empty_native_proof();
        let r = self.verify_signed_message_with_protocol(
            env,
            signed,
            BridgeProtocol::Native,
            &bridge_proof,
            inputs,
            proof,
            proof_flags,
        );
        proof {
            assert forall|bp: BridgeProof| bp.protocol == BridgeProtocol::Native implies r
                == #[trigger] verify_spec(
                self,
                signed,
                BridgeProtocol::Native,
                &bp,
                &before,
                views_of(proof@),
                proof_flags@,
            ) by {
                assert(crate::bridge::digest_preimage(BridgeProtocol::Native, &signed.message, &bp)
                    =~= crate::bridge::digest_preimage(
                    BridgeProtocol::Native,
                    &signed.message,
                    &bridge_proof,
                ));
            }
        }
        r
    }

    /// Merkle inclusion of `leaf` under the root stored for the block.
    pub fn verify_message(
        env: &Env,
        expected_root: &Option<Vec<u8>>,
        leaf: &Vec<u8>,
        proof: &Vec<Vec<u8>>,
        proof_flags: &Vec<bool>,
    ) -> (r: bool)
        requires
            hashes_well_formed(leaf@, proof@),
        ensures
            r == merkle_ok(leaf@, root_view(*expected_root), views_of(proof@), proof_flags@),
    {
        verify_merkle_proof(env, leaf, expected_root, proof, proof_flags)
    }

    /// Merkle inclusion for a nonce that is not processed yet (a processed
    /// nonce is refused by the caller, "nonce already processed"); on `true`
    /// the nonce is marked processed in `nonce_processed` (the caller stores
    /// the mark), so it cannot be consumed twice.
    pub fn verify_message_and_consume(
        env: &Env,
        nonce_processed: &mut bool,
        expected_root: &Option<Vec<u8>>,
        leaf: &Vec<u8>,
        proof: &Vec<Vec<u8>>,
        proof_flags: &Vec<bool>,
    ) -> (r: bool)
        requires
            !*old(nonce_processed),
            hashes_well_formed(leaf@, proof@),
        ensures
            r == merkle_ok(leaf@, root_view(*expected_root), views_of(proof@), proof_flags@),
            *final(nonce_processed) == r,
    {
        let valid = Self::verify_message(env, expected_root, leaf, proof, proof_flags);
        if valid {
            *nonce_processed = true;
        }
        valid
    }

    /// Whether a nonce is marked processed (unset means not).
    pub fn is_nonce_processed(stored: Option<bool>) -> (r: bool)
        ensures
            r == (stored == Some(true)),
    {
        match stored {
            Some(b) => b,
            None => false,
        }
    }
}

/// Each level of a Merkle path is hashed in the order given by that level's
/// own flag: extending a path by a sibling `x` with flag `b` hashes `x` before
/// the running hash when `b` is set (the sibling is the left node), after it
/// otherwise.
pub proof fn law_merkle_level_order(
    leaf: Seq<u8>,
    siblings: Seq<Seq<u8>>,
    left: Seq<bool>,
    x: Seq<u8>,
    b: bool,
)
    ensures
        merkle_root(leaf, siblings.push(x), left.push(b)) == spec_sha256(
            if b {
                x + merkle_root(leaf, siblings, left)
            } else {
                merkle_root(leaf, siblings, left) + x
            },
        ),
{
    assert(siblings.push(x).drop_last() =~= siblings);
    assert(left.push(b).drop_last() =~= left);
}

/// What a Merkle check accepts, by path length: with no stored root, or a
/// flag count that differs from the sibling count, nothing; an empty path
/// proves exactly the root itself; one sibling `s0` proves the hash of the
/// pair in the order its flag gives; two siblings `s0, s1` (leaf at index 1
/// of a four-leaf tree for flags `[true, false]`) prove the hash of the
/// level-0 pair combined with `s1` in the order of the level-1 flag.
pub proof fn law_merkle_paths(
    leaf: Seq<u8>,
    root: Seq<u8>,
    s0: Seq<u8>,
    s1: Seq<u8>,
    f0: bool,
    f1: bool,
    siblings: Seq<Seq<u8>>,
    left: Seq<bool>,
)
    ensures
        !merkle_ok(leaf, None, siblings, left),
        siblings.len() != left.len() ==> !merkle_ok(leaf, Some(root), siblings, left),
        merkle_ok(leaf, Some(root), Seq::empty(), Seq::empty()) == (root == leaf),
        merkle_ok(leaf, Some(root), seq![s0], seq![f0]) == (root == spec_sha256(
            if f0 {
                s0 + leaf
            } else {
                leaf + s0
            },
        )),
        ({
            let h0 = spec_sha256(
                if f0 {
                    s0 + leaf
                } else {
                    leaf + s0
                },
            );
            merkle_ok(leaf, Some(root), seq![s0, s1], seq![f0, f1]) == (root == spec_sha256(
                if f1 {
                    s1 + h0
                } else {
                    h0 + s1
                },
            ))
        }),
{
    let e: Seq<Seq<u8>> = Seq::empty();
    let ef: Seq<bool> = Seq::empty();
    law_merkle_level_order(leaf, e, ef, s0, f0);
    assert(e.push(s0) =~= seq![s0]);
    assert(ef.push(f0) =~= seq![f0]);
    law_merkle_level_order(leaf, seq![s0], seq![f0], s1, f1);
    assert(seq![s0].push(s1) =~= seq![s0, s1]);
    assert(seq![f0].push(f1) =~= seq![f0, f1]);
}

/// Replay protection: once a message digest is marked processed, verifying
/// the same message again fails, whatever else is presented.
pub proof fn law_replay_rejected(
    v: &CrossChainVerifier,
    signed: &SignedMessage,
    protocol: BridgeProtocol,
    bridge_proof: &BridgeProof,
    inputs: &VerificationInputs,
    siblings: Seq<Seq<u8>>,
    left: Seq<bool>,
)
    requires
        inputs.message_processed,
    ensures
        !verify_spec(v, signed, protocol, bridge_proof, inputs, siblings, left),
{
}

/// Replay protection across calls: after a verification succeeds, the
/// lookups it leaves behind (the digest marked processed) make the very same
/// verification fail.
pub proof fn law_verification_is_single_use(
    v: &CrossChainVerifier,
    signed: &SignedMessage,
    protocol: BridgeProtocol,
    bridge_proof: &BridgeProof,
    inputs: VerificationInputs,
    siblings: Seq<Seq<u8>>,
    left: Seq<bool>,
)
    requires
        verify_spec(v, signed, protocol, bridge_proof, &inputs, siblings, left),
    ensures
        !verify_spec(v, signed, protocol, bridge_proof, &marked_processed(inputs), siblings, left),
{
}

/// A revoked key never verifies: once `remove_authorized_signer` has cleared
/// the key's algorithm entry, no message presented under that key verifies.
pub proof fn law_removed_signer_rejected(
    v: &CrossChainVerifier,
    signed: &SignedMessage,
    protocol: BridgeProtocol,
    bridge_proof: &BridgeProof,
    inputs: &VerificationInputs,
    siblings: Seq<Seq<u8>>,
    left: Seq<bool>,
)
    requires
        inputs.signer_algorithm is None,
    ensures
        !verify_spec(v, signed, protocol, bridge_proof, inputs, siblings, left),
{
}

/// A protocol that is not enabled never verifies, and a revoked signer
/// (message nonce older than the signer's) is never accepted.
pub proof fn law_disabled_or_revoked_rejected(
    v: &CrossChainVerifier,
    signed: &SignedMessage,
    protocol: BridgeProtocol,
    bridge_proof: &BridgeProof,
    inputs: &VerificationInputs,
    siblings: Seq<Seq<u8>>,
    left: Seq<bool>,
)
    requires
        !enabled_of(v).contains(protocol) || (inputs.current_revocation_nonce matches Some(n)
            && signed.revocation_nonce < n),
    ensures
        !verify_spec(v, signed, protocol, bridge_proof, inputs, siblings, left),
{
}

} // verus!
