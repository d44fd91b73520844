//! Multi-bridge protocol abstraction for cross-chain verification.
use vstd::prelude::*;
use soroban_sdk::Env;
use crate::crypto::{sha256, spec_sha256, be32, be64, from_be32, push_be32, push_be64, push_all, lemma_be32_roundtrip};

verus! {

/// Supported bridge wire formats.
#[derive(Clone, Copy, Debug, PartialEq, Eq, Structural)]
pub enum BridgeProtocol {
    /// Native format: authorized signer + Merkle inclusion proof.
    Native,
    /// LayerZero-style packet: src/dst endpoint ids + nonce.
    LayerZero,
    /// Wormhole-style VAA: emitter chain + sequence + guardian quorum.
    Wormhole,
}

/// Signature schemes accepted for authorized signers.
#[derive(Clone, Copy, Debug, PartialEq, Eq, Structural)]
pub enum SignatureAlgorithm {
    Ed25519,
    Secp256k1,
}

/// `b"CROSS_CHAIN_MESSAGE_V1"`.
pub open spec fn native_domain() -> Seq<u8> {
    seq![
        67u8, 82u8, 79u8, 83u8, 83u8, 95u8, 67u8, 72u8, 65u8, 73u8, 78u8, 95u8, 77u8, 69u8, 83u8,
        83u8, 65u8, 71u8, 69u8, 95u8, 86u8, 49u8,
    ]
}

/// `b"LZ_PACKET_V1"`.
pub open spec fn layerzero_domain() -> Seq<u8> {
    seq![76u8, 90u8, 95u8, 80u8, 65u8, 67u8, 75u8, 69u8, 84u8, 95u8, 86u8, 49u8]
}

/// `b"WH_VAA_V1"`.
pub open spec fn wormhole_domain() -> Seq<u8> {
    seq![87u8, 72u8, 95u8, 86u8, 65u8, 65u8, 95u8, 86u8, 49u8]
}

/// The domain separator of a protocol.
pub open spec fn domain_of(p: BridgeProtocol) -> Seq<u8> {
    match p {
        BridgeProtocol::Native => native_domain(),
        BridgeProtocol::LayerZero => layerzero_domain(),
        BridgeProtocol::Wormhole => wormhole_domain(),
    }
}

/// What each bridge adapter provides.
pub trait BridgeProtocolVerifier {
    /// The protocol this adapter handles.
    fn protocol() -> (r: BridgeProtocol)
        ensures
            r == Self::protocol_spec(),
    ;

    /// The protocol's domain separator, prefixed to every digest preimage.
    fn domain_separator() -> (r: Vec<u8>)
        ensures
            r@ == domain_of(Self::protocol_spec()),
    ;

    /// Domain-separated digest of `message` used for signature checks.
    fn hash_message(env: &Env, message: &CrossChainMessage, proof: &BridgeProof) -> (r: Vec<u8>)
        ensures
            r@ == digest_spec(Self::protocol_spec(), message, proof),
            r@.len() == 32,
    ;

    /// Protocol-specific structural constraints on `proof`, its tag included.
    fn validate_proof(env: &Env, message: &CrossChainMessage, proof: &BridgeProof) -> (r: bool)
        ensures
            r == (proof.protocol == Self::protocol_spec() && proof_valid_spec(
                Self::protocol_spec(),
                message,
                proof,
            )),
    ;

    spec fn protocol_spec() -> BridgeProtocol;
}

/// Native adapter.
pub struct NativeBridge;

/// LayerZero adapter.
pub struct LayerZeroBridge;

/// Wormhole adapter.
pub struct WormholeBridge;

impl BridgeProtocolVerifier for NativeBridge {
    fn protocol() -> (r: BridgeProtocol) {
        BridgeProtocol::Native
    }

    fn domain_separator() -> (r: Vec<u8>) {
        let r = vec![
            67u8, 82u8, 79u8, 83u8, 83u8, 95u8, 67u8, 72u8, 65u8, 73u8, 78u8, 95u8, 77u8, 69u8,
            83u8, 83u8, 65u8, 71u8, 69u8, 95u8, 86u8, 49u8,
        ];
        assert(r@ =~= native_domain());
        r
    }

    fn hash_message(env: &Env, message: &CrossChainMessage, proof: &BridgeProof) -> (r: Vec<u8>) {
        let data = build_preimage(env, BridgeProtocol::Native, message, proof);
        sha256(env, &data)
    }

    fn validate_proof(env: &Env, message: &CrossChainMessage, proof: &BridgeProof) -> (r: bool) {
        proof.protocol == BridgeProtocol::Native
    }

    open spec fn protocol_spec() -> BridgeProtocol {
        BridgeProtocol::Native
    }
}

impl BridgeProtocolVerifier for LayerZeroBridge {
    fn protocol() -> (r: BridgeProtocol) {
        BridgeProtocol::LayerZero
    }

    fn domain_separator() -> (r: Vec<u8>) {
        let r = vec![76u8, 90u8, 95u8, 80u8, 65u8, 67u8, 75u8, 69u8, 84u8, 95u8, 86u8, 49u8];
        assert(r@ =~= layerzero_domain());
        r
    }

    fn hash_message(env: &Env, message: &CrossChainMessage, proof: &BridgeProof) -> (r: Vec<u8>) {
        let data = build_preimage(env, BridgeProtocol::LayerZero, message, proof);
        sha256(env, &data)
    }

    fn validate_proof(env: &Env, message: &CrossChainMessage, proof: &BridgeProof) -> (r: bool) {
        if proof.protocol != BridgeProtocol::LayerZero {
            return false;
        }
        let d = &proof.proof_data;
        if d.len() >= 8 {
            let src = ((d[0] as u32) << 24u32) | ((d[1] as u32) << 16u32) | ((d[2] as u32) << 8u32)
                | (d[3] as u32);
            let dst = ((d[4] as u32) << 24u32) | ((d[5] as u32) << 16u32) | ((d[6] as u32) << 8u32)
                | (d[7] as u32);
            if src != message.source_chain || dst != message.destination_chain {
                return false;
            }
        }
        true
    }

    open spec fn protocol_spec() -> BridgeProtocol {
        BridgeProtocol::LayerZero
    }
}

impl BridgeProtocolVerifier for WormholeBridge {
    fn protocol() -> (r: BridgeProtocol) {
        BridgeProtocol::Wormhole
    }

    fn domain_separator() -> (r: Vec<u8>) {
        let r = vec![87u8, 72u8, 95u8, 86u8, 65u8, 65u8, 95u8, 86u8, 49u8];
        assert(r@ =~= wormhole_domain());
        r
    }

    fn hash_message(env: &Env, message: &CrossChainMessage, proof: &BridgeProof) -> (r: Vec<u8>) {
        let data = build_preimage(env, BridgeProtocol::Wormhole, message, proof);
        sha256(env, &data)
    }

    fn validate_proof(env: &Env, message: &CrossChainMessage, proof: &BridgeProof) -> (r: bool) {
        if proof.protocol != BridgeProtocol::Wormhole {
            return false;
        }
        let d = &proof.proof_data;
        if d.len() >= 1 {
            let quorum = d[0];
            if quorum == 0 || quorum > 19 {
                return false;
            }
        }
        if d.len() >= 5 {
            let emitter = ((d[1] as u32) << 24u32) | ((d[2] as u32) << 16u32) | ((d[3] as u32)
                << 8u32) | (d[4] as u32);
            if emitter != message.source_chain {
                return false;
            }
        }
        true
    }

    open spec fn protocol_spec() -> BridgeProtocol {
        BridgeProtocol::Wormhole
    }
}

/// The domain separator used for `protocol`'s digests.
pub fn digest_prefix(protocol: BridgeProtocol) -> (r: Vec<u8>)
    ensures
        r@ == domain_of(protocol),
{
    match protocol {
        BridgeProtocol::Native => NativeBridge::domain_separator(),
        BridgeProtocol::LayerZero => LayerZeroBridge::domain_separator(),
        BridgeProtocol::Wormhole => WormholeBridge::domain_separator(),
    }
}

/// The three domain separators are pairwise distinct, so a digest made for
/// one protocol never collides in its preimage prefix with another's.
pub proof fn law_domains_distinct(p: BridgeProtocol, q: BridgeProtocol)
    requires
        p != q,
    ensures
        domain_of(p) != domain_of(q),
{
    if p == BridgeProtocol::Native || q == BridgeProtocol::Native {
        assert(domain_of(p).len() != domain_of(q).len());
    } else {
        assert(domain_of(p).len() != domain_of(q).len());
    }
}

/// A message relayed from another chain.
#[derive(Debug)]
pub struct CrossChainMessage {
    pub source_chain: u32,
    pub destination_chain: u32,
    pub nonce: u64,
    pub payload: Vec<u8>,
    pub timestamp: u64,
}

/// Protocol-specific proof bytes attached to a verification request.
#[derive(Debug)]
pub struct BridgeProof {
    pub protocol: BridgeProtocol,
    /// Opaque protocol bytes (packet header, VAA fragment, ...).
    pub proof_data: Vec<u8>,
}

/// The bytes hashed to form `protocol`'s digest of `message`.
pub open spec fn digest_preimage(protocol: BridgeProtocol, message: &CrossChainMessage, proof: &BridgeProof) -> Seq<u8> {
    let payload_hash = spec_sha256(message.payload@);
    match protocol {
        BridgeProtocol::Native => native_domain() + be32(message.source_chain) + be32(
            message.destination_chain,
        ) + be64(message.nonce) + be64(message.timestamp) + payload_hash,
        BridgeProtocol::LayerZero => layerzero_domain() + be32(message.source_chain) + be32(
            message.destination_chain,
        ) + be64(message.nonce) + proof.proof_data@ + payload_hash,
        BridgeProtocol::Wormhole => wormhole_domain() + be32(message.source_chain) + be64(
            message.nonce,
        ) + proof.proof_data@ + payload_hash,
    }
}

/// `protocol`'s domain-separated digest of `message`.
pub open spec fn digest_spec(protocol: BridgeProtocol, message: &CrossChainMessage, proof: &BridgeProof) -> Seq<u8> {
    spec_sha256(digest_preimage(protocol, message, proof))
}

/// Whether the proof bytes satisfy `protocol`'s structural constraints for
/// `message` (the proof's own protocol tag is checked separately).
pub open spec fn proof_valid_spec(protocol: BridgeProtocol, message: &CrossChainMessage, proof: &BridgeProof) -> bool {
    let d = proof.proof_data@;
    match protocol {
        BridgeProtocol::Native => true,
        BridgeProtocol::LayerZero => d.len() >= 8 ==> (from_be32(d[0], d[1], d[2], d[3])
            == message.source_chain && from_be32(d[4], d[5], d[6], d[7])
            == message.destination_chain),
        BridgeProtocol::Wormhole => {
            &&& d.len() >= 1 ==> 1 <= d[0] <= 19
            &&& d.len() >= 5 ==> from_be32(d[1], d[2], d[3], d[4]) == message.source_chain
        },
    }
}

/// Builds the digest preimage of `message` for `protocol`: the bytes whose
/// SHA-256 is the message digest.
pub fn build_preimage(env: &Env, protocol: BridgeProtocol, message: &CrossChainMessage, proof: &BridgeProof) -> (r: Vec<u8>)
    ensures
        r@ == digest_preimage(protocol, message, proof),
{
    let mut data = digest_prefix(protocol);
    push_be32(&mut data, message.source_chain);
    match protocol {
        BridgeProtocol::Native => {
            push_be32(&mut data, message.destination_chain);
            push_be64(&mut data, message.nonce);
            push_be64(&mut data, message.timestamp);
        },
        BridgeProtocol::LayerZero => {
            push_be32(&mut data, message.destination_chain);
            push_be64(&mut data, message.nonce);
            if proof.proof_data.len() > 0 {
                push_all(&mut data, &proof.proof_data);
            }
        },
        BridgeProtocol::Wormhole => {
            push_be64(&mut data, message.nonce);
            if proof.proof_data.len() > 0 {
                push_all(&mut data, &proof.proof_data);
            }
        },
    }
    let payload_hash = sha256(env, &message.payload);
    push_all(&mut data, &payload_hash);
    proof {
        if proof.proof_data@.len() == 0 {
            assert(proof.proof_data@ =~= Seq::<u8>::empty());
        }
        match protocol {
            BridgeProtocol::Native => {
                assert(data@ =~= digest_preimage(protocol, message, proof));
            },
            BridgeProtocol::LayerZero => {
                assert(data@ =~= digest_preimage(protocol, message, proof));
            },
            BridgeProtocol::Wormhole => {
                assert(data@ =~= digest_preimage(protocol, message, proof));
            },
        }
    }
    data
}

/// Digest of `message` under `protocol`'s domain separation (dispatches to
/// the protocol's adapter).
pub fn hash_for_protocol(env: &Env, protocol: BridgeProtocol, message: &CrossChainMessage, proof: &BridgeProof) -> (r: Vec<u8>)
    ensures
        r@ == digest_spec(protocol, message, proof),
        r@.len() == 32,
{
    match protocol {
        BridgeProtocol::Native => NativeBridge::hash_message(env, message, proof),
        BridgeProtocol::LayerZero => LayerZeroBridge::hash_message(env, message, proof),
        BridgeProtocol::Wormhole => WormholeBridge::hash_message(env, message, proof),
    }
}

/// Structural validation of a proof: its tag must be `protocol`, then the
/// protocol's own constraints apply (LayerZero: a path header, when present,
/// must name the message's source and destination; Wormhole: a quorum byte,
/// when present, must be 1..=19 and an emitter chain, when present, must be
/// the message's source).
pub fn validate_for_protocol(env: &Env, protocol: BridgeProtocol, message: &CrossChainMessage, proof: &BridgeProof) -> (r: bool)
    ensures
        r == (proof.protocol == protocol && proof_valid_spec(protocol, message, proof)),
{
    if proof.protocol != protocol {
        return false;
    }
    match protocol {
        BridgeProtocol::Native => NativeBridge::validate_proof(env, message, proof),
        BridgeProtocol::LayerZero => LayerZeroBridge::validate_proof(env, message, proof),
        BridgeProtocol::Wormhole => WormholeBridge::validate_proof(env, message, proof),
    }
}

/// A native proof with no data, for callers of the legacy path.
pub fn empty_native_proof() -> (r: BridgeProof)
    ensures
        r.protocol == BridgeProtocol::Native,
        r.proof_data@.len() == 0,
{
    BridgeProof { protocol: BridgeProtocol::Native, proof_data: Vec::new() }
}

/// A LayerZero proof naming the path `src_eid -> dst_eid`.
pub fn layerzero_path_proof(src_eid: u32, dst_eid: u32) -> (r: BridgeProof)
    ensures
        r.protocol == BridgeProtocol::LayerZero,
        r.proof_data@ == be32(src_eid) + be32(dst_eid),
{
    let mut data: Vec<u8> = Vec::new();
    push_be32(&mut data, src_eid);
    push_be32(&mut data, dst_eid);
    assert(data@ =~= be32(src_eid) + be32(dst_eid));
    BridgeProof { protocol: BridgeProtocol::LayerZero, proof_data: data }
}

/// A Wormhole proof with a guardian quorum and an emitter chain.
pub fn wormhole_guardian_proof(quorum: u8, emitter_chain: u32) -> (r: BridgeProof)
    ensures
        r.protocol == BridgeProtocol::Wormhole,
        r.proof_data@ == seq![quorum] + be32(emitter_chain),
{
    let mut data: Vec<u8> = Vec::new();
    data.push(quorum);
    push_be32(&mut data, emitter_chain);
    assert(data@ =~= seq![quorum] + be32(emitter_chain));
    BridgeProof { protocol: BridgeProtocol::Wormhole, proof_data: data }
}

/// Whether a public key has the length its algorithm uses (32 bytes for
/// Ed25519, 33 or 65 for Secp256k1).
pub open spec fn key_length_ok(algorithm: SignatureAlgorithm, key_len: nat) -> bool {
    match algorithm {
        SignatureAlgorithm::Ed25519 => key_len == 32,
        SignatureAlgorithm::Secp256k1 => key_len == 33 || key_len == 65,
    }
}

/// Whether a Secp256k1 public key, in SEC-1 form, is the key `recovered`
/// from a signature (65-byte uncompressed SEC-1, `04 || x || y`): the same
/// 65 bytes, or the 33-byte compressed form `(02 | parity of y) || x`.
pub open spec fn sec1_key_matches(recovered: Seq<u8>, key: Seq<u8>) -> bool {
    &&& recovered.len() == 65
    &&& recovered[0] == 4
    &&& {
        ||| key.len() == 65 && key == recovered
        ||| key.len() == 33 && key[0] == 2 + recovered[64] % 2 && key.subrange(1, 33)
            == recovered.subrange(1, 33)
    }
}

/// Whether the Secp256k1 `public_key` is the key `recovered` from a
/// signature (see `sec1_key_matches`).
pub fn secp256k1_key_matches(recovered: &Vec<u8>, public_key: &Vec<u8>) -> (r: bool)
    ensures
        r == sec1_key_matches(recovered@, public_key@),
{
    if recovered.len() != 65 || recovered[0] != 4 {
        return false;
    }
    if public_key.len() == 65 {
        return crate::address::bytes_eq(recovered, public_key);
    }
    if public_key.len() != 33 || public_key[0] != 2 + recovered[64] % 2 {
        return false;
    }
    let mut i: usize = 1;
    while i < 33
        invariant
            1 <= i <= 33,
            recovered@.len() == 65,
            public_key@.len() == 33,
            forall|j: int| 1 <= j < i ==> public_key@[j] == recovered@[j],
        decreases 33 - i,
    {
        if public_key[i] != recovered[i] {
            assert(public_key@.subrange(1, 33)[i - 1] != recovered@.subrange(1, 33)[i - 1]);
            return false;
        }
        i = i + 1;
    }
    assert(public_key@.subrange(1, 33) =~= recovered@.subrange(1, 33));
    true
}

/// A signature check: keys of the wrong length are rejected before any
/// cryptography; otherwise the outcome is that of the host's signature check
/// over the digest, `host_accepts`.
pub fn verify_algorithm_signature(algorithm: SignatureAlgorithm, public_key: &Vec<u8>, host_accepts: bool) -> (r: bool)
    ensures
        r == (key_length_ok(algorithm, public_key@.len()) && host_accepts),
{
    match algorithm {
        SignatureAlgorithm::Ed25519 => {
            if public_key.len() != 32 {
                return false;
            }
            host_accepts
        },
        SignatureAlgorithm::Secp256k1 => {
            if public_key.len() != 33 && public_key.len() != 65 {
                return false;
            }
            host_accepts
        },
    }
}

/// The proof builders agree with validation: a LayerZero path proof for the
/// message's own chains passes, as does a Wormhole proof for its source
/// chain with a quorum of 1 to 19; a path proof naming another chain fails.
pub proof fn law_path_proofs_validate(message: &CrossChainMessage, lz: &BridgeProof, wh: &BridgeProof, q: u8)
    requires
        lz.protocol == BridgeProtocol::LayerZero,
        lz.proof_data@ == be32(message.source_chain) + be32(message.destination_chain),
        wh.protocol == BridgeProtocol::Wormhole,
        wh.proof_data@ == seq![q] + be32(message.source_chain),
    ensures
        proof_valid_spec(BridgeProtocol::LayerZero, message, lz),
        proof_valid_spec(BridgeProtocol::Wormhole, message, wh) == (1 <= q <= 19),
{
    lemma_be32_roundtrip(message.source_chain);
    lemma_be32_roundtrip(message.destination_chain);
    let d = lz.proof_data@;
    assert(d[0] == be32(message.source_chain)[0] && d[1] == be32(message.source_chain)[1]);
    assert(d[2] == be32(message.source_chain)[2] && d[3] == be32(message.source_chain)[3]);
    assert(d[4] == be32(message.destination_chain)[0] && d[5] == be32(message.destination_chain)[1]);
    assert(d[6] == be32(message.destination_chain)[2] && d[7] == be32(message.destination_chain)[3]);
    let w = wh.proof_data@;
    assert(w[0] == q);
    assert(w[1] == be32(message.source_chain)[0] && w[2] == be32(message.source_chain)[1]);
    assert(w[3] == be32(message.source_chain)[2] && w[4] == be32(message.source_chain)[3]);
}

/// Big-endian encodings of distinct `u64`s differ.
proof fn lemma_be64_injective(a: u64, b: u64)
    requires
        be64(a) == be64(b),
    ensures
        a == b,
{
    let x = be64(a);
    let y = be64(b);
    assert(x[0] == y[0] && x[1] == y[1] && x[2] == y[2] && x[3] == y[3]);
    assert(x[4] == y[4] && x[5] == y[5] && x[6] == y[6] && x[7] == y[7]);
    assert(((a >> 56u64) as u8 == (b >> 56u64) as u8 && (a >> 48u64) as u8 == (b >> 48u64) as u8
        && (a >> 40u64) as u8 == (b >> 40u64) as u8 && (a >> 32u64) as u8 == (b >> 32u64) as u8
        && (a >> 24u64) as u8 == (b >> 24u64) as u8 && (a >> 16u64) as u8 == (b >> 16u64) as u8
        && (a >> 8u64) as u8 == (b >> 8u64) as u8 && a as u8 == b as u8) ==> a == b)
        by (bit_vector);
}

/// Big-endian encodings of distinct `u32`s differ.
proof fn lemma_be32_injective(a: u32, b: u32)
    requires
        be32(a) == be32(b),
    ensures
        a == b,
{
    lemma_be32_roundtrip(a);
    lemma_be32_roundtrip(b);
}

/// Where each field sits in a digest preimage: the protocol's domain
/// separator, then the big-endian source chain; then, for Native and
/// LayerZero, the destination chain and the nonce (Native: then the
/// timestamp), for Wormhole the nonce (VAA sequence); then, for LayerZero and
/// Wormhole, the proof bytes; and last the SHA-256 of the payload.
pub proof fn law_digest_layout(protocol: BridgeProtocol, message: &CrossChainMessage, proof: &BridgeProof)
    ensures
        ({
            let pre = digest_preimage(protocol, message, proof);
            let d = domain_of(protocol).len() as int;
            let h = spec_sha256(message.payload@);
            let pd = proof.proof_data@;
            &&& pre.subrange(0, d) == domain_of(protocol)
            &&& pre.subrange(d, d + 4) == be32(message.source_chain)
            &&& pre.skip(pre.len() - h.len()) == h
            &&& protocol == BridgeProtocol::Native ==> {
                &&& pre.len() == d + 24 + h.len()
                &&& pre.subrange(d + 4, d + 8) == be32(message.destination_chain)
                &&& pre.subrange(d + 8, d + 16) == be64(message.nonce)
                &&& pre.subrange(d + 16, d + 24) == be64(message.timestamp)
            }
            &&& protocol == BridgeProtocol::LayerZero ==> {
                &&& pre.len() == d + 16 + pd.len() + h.len()
                &&& pre.subrange(d + 4, d + 8) == be32(message.destination_chain)
                &&& pre.subrange(d + 8, d + 16) == be64(message.nonce)
                &&& pre.subrange(d + 16, d + 16 + pd.len()) == pd
            }
            &&& protocol == BridgeProtocol::Wormhole ==> {
                &&& pre.len() == d + 12 + pd.len() + h.len()
                &&& pre.subrange(d + 4, d + 12) == be64(message.nonce)
                &&& pre.subrange(d + 12, d + 12 + pd.len()) == pd
            }
        }),
{
    let pre = digest_preimage(protocol, message, proof);
    let d = domain_of(protocol).len() as int;
    let h = spec_sha256(message.payload@);
    let pd = proof.proof_data@;
    let dom = domain_of(protocol);
    assert(pre.subrange(0, d) =~= dom);
    assert(pre.subrange(d, d + 4) =~= be32(message.source_chain));
    assert(pre.skip(pre.len() - h.len()) =~= h);
    match protocol {
        BridgeProtocol::Native => {
            assert(pre.subrange(d + 4, d + 8) =~= be32(message.destination_chain));
            assert(pre.subrange(d + 8, d + 16) =~= be64(message.nonce));
            assert(pre.subrange(d + 16, d + 24) =~= be64(message.timestamp));
        },
        BridgeProtocol::LayerZero => {
            assert(pre.subrange(d + 4, d + 8) =~= be32(message.destination_chain));
            assert(pre.subrange(d + 8, d + 16) =~= be64(message.nonce));
            assert(pre.subrange(d + 16, d + 16 + pd.len()) =~= pd);
        },
        BridgeProtocol::Wormhole => {
            assert(pre.subrange(d + 4, d + 12) =~= be64(message.nonce));
            assert(pre.subrange(d + 12, d + 12 + pd.len()) =~= pd);
        },
    }
}

/// Digests separate messages: two messages that differ in their nonce (the
/// replay key), in their source chain, in their destination chain (Native
/// and LayerZero, which carry it) or in their timestamp (Native) never share
/// a digest preimage under one protocol, whatever proofs come with them.
pub proof fn law_digest_separates_messages(
    protocol: BridgeProtocol,
    m1: &CrossChainMessage,
    m2: &CrossChainMessage,
    proof1: &BridgeProof,
    proof2: &BridgeProof,
)
    requires
        m1.nonce != m2.nonce || m1.source_chain != m2.source_chain || (protocol
            != BridgeProtocol::Wormhole && m1.destination_chain != m2.destination_chain) || (
        protocol == BridgeProtocol::Native && m1.timestamp != m2.timestamp),
    ensures
        digest_preimage(protocol, m1, proof1) != digest_preimage(protocol, m2, proof2),
{
    law_digest_layout(protocol, m1, proof1);
    law_digest_layout(protocol, m2, proof2);
    let d = domain_of(protocol).len() as int;
    if digest_preimage(protocol, m1, proof1) == digest_preimage(protocol, m2, proof2) {
        lemma_be32_injective(m1.source_chain, m2.source_chain);
        if protocol == BridgeProtocol::Wormhole {
            lemma_be64_injective(m1.nonce, m2.nonce);
        } else {
            lemma_be32_injective(m1.destination_chain, m2.destination_chain);
            lemma_be64_injective(m1.nonce, m2.nonce);
            if protocol == BridgeProtocol::Native {
                lemma_be64_injective(m1.timestamp, m2.timestamp);
            }
        }
    }
}

} // verus!
