use perigee::bridge::{
    digest_prefix, empty_native_proof, hash_for_protocol, layerzero_path_proof,
    validate_for_protocol, verify_algorithm_signature, wormhole_guardian_proof, BridgeProtocol,
    BridgeProtocolVerifier, CrossChainMessage, LayerZeroBridge, NativeBridge, SignatureAlgorithm,
    WormholeBridge,
};
use soroban_sdk::testutils::EnvTestConfig;
use soroban_sdk::Env;

fn env() -> Env {
    Env::new_with_config(EnvTestConfig { capture_snapshot_at_drop: false })
}

fn sample_message() -> CrossChainMessage {
    CrossChainMessage {
        source_chain: 1,
        destination_chain: 2,
        nonce: 42,
        payload: b"payload".to_vec(),
        timestamp: 1_700_000_000,
    }
}

#[test]
fn separators_are_distinct() {
    assert_ne!(digest_prefix(BridgeProtocol::Native), digest_prefix(BridgeProtocol::LayerZero));
    assert_ne!(digest_prefix(BridgeProtocol::LayerZero), digest_prefix(BridgeProtocol::Wormhole));
}

#[test]
fn trait_protocols_match() {
    assert_eq!(NativeBridge::protocol(), BridgeProtocol::Native);
    assert_eq!(LayerZeroBridge::protocol(), BridgeProtocol::LayerZero);
    assert_eq!(WormholeBridge::protocol(), BridgeProtocol::Wormhole);
}

#[test]
fn native_and_lz_digests_differ() {
    let env = env();
    let msg = sample_message();
    let native = empty_native_proof();
    let lz = layerzero_path_proof(1, 2);
    let h_native = hash_for_protocol(&env, BridgeProtocol::Native, &msg, &native);
    let h_lz = hash_for_protocol(&env, BridgeProtocol::LayerZero, &msg, &lz);
    assert_ne!(h_native, h_lz);
}

#[test]
fn wormhole_rejects_zero_quorum() {
    let env = env();
    let msg = sample_message();
    let bad = wormhole_guardian_proof(0, 1);
    assert!(!validate_for_protocol(&env, BridgeProtocol::Wormhole, &msg, &bad));
    let good = wormhole_guardian_proof(13, 1);
    assert!(validate_for_protocol(&env, BridgeProtocol::Wormhole, &msg, &good));
}

#[test]
fn layerzero_rejects_mismatched_path() {
    let env = env();
    let msg = sample_message();
    let bad = layerzero_path_proof(9, 9);
    assert!(!validate_for_protocol(&env, BridgeProtocol::LayerZero, &msg, &bad));
    let good = layerzero_path_proof(1, 2);
    assert!(validate_for_protocol(&env, BridgeProtocol::LayerZero, &msg, &good));
}

#[test]
fn protocol_mismatch_fails_validation() {
    let env = env();
    let msg = sample_message();
    let lz = layerzero_path_proof(1, 2);
    assert!(!validate_for_protocol(&env, BridgeProtocol::Wormhole, &msg, &lz));
}

#[test]
fn domain_separators_spell_the_protocol_tags() {
    assert_eq!(NativeBridge::domain_separator(), b"CROSS_CHAIN_MESSAGE_V1".to_vec());
    assert_eq!(LayerZeroBridge::domain_separator(), b"LZ_PACKET_V1".to_vec());
    assert_eq!(WormholeBridge::domain_separator(), b"WH_VAA_V1".to_vec());
}

#[test]
fn native_digest_is_sha256_of_the_domain_separated_preimage() {
    let env = env();
    let msg = sample_message();
    let digest = hash_for_protocol(&env, BridgeProtocol::Native, &msg, &empty_native_proof());
    // Preimage built by hand: domain || src || dst || nonce || timestamp || sha256(payload).
    let payload_hash = env
        .crypto()
        .sha256(&soroban_sdk::Bytes::from_slice(&env, b"payload"))
        .to_array();
    let mut pre: Vec<u8> = b"CROSS_CHAIN_MESSAGE_V1".to_vec();
    pre.extend_from_slice(&1u32.to_be_bytes());
    pre.extend_from_slice(&2u32.to_be_bytes());
    pre.extend_from_slice(&42u64.to_be_bytes());
    pre.extend_from_slice(&1_700_000_000u64.to_be_bytes());
    pre.extend_from_slice(&payload_hash);
    let expected = env.crypto().sha256(&soroban_sdk::Bytes::from_slice(&env, &pre)).to_array();
    assert_eq!(digest, expected.to_vec());
    assert_ne!(digest, pre);
    // The adapter agrees with the dispatcher.
    assert_eq!(NativeBridge::hash_message(&env, &msg, &empty_native_proof()), digest);
}

#[test]
fn wormhole_rejects_foreign_emitter_and_large_quorum() {
    let env = env();
    let msg = sample_message();
    assert!(!validate_for_protocol(&env, BridgeProtocol::Wormhole, &msg, &wormhole_guardian_proof(13, 7)));
    assert!(!validate_for_protocol(&env, BridgeProtocol::Wormhole, &msg, &wormhole_guardian_proof(20, 1)));
    assert!(validate_for_protocol(&env, BridgeProtocol::Wormhole, &msg, &wormhole_guardian_proof(19, 1)));
}

#[test]
fn key_lengths_gate_signature_checks() {
    assert!(verify_algorithm_signature(SignatureAlgorithm::Ed25519, &vec![1u8; 32], true));
    assert!(!verify_algorithm_signature(SignatureAlgorithm::Ed25519, &vec![1u8; 33], true));
    assert!(!verify_algorithm_signature(SignatureAlgorithm::Ed25519, &vec![1u8; 32], false));
    assert!(verify_algorithm_signature(SignatureAlgorithm::Secp256k1, &vec![2u8; 33], true));
    assert!(verify_algorithm_signature(SignatureAlgorithm::Secp256k1, &vec![2u8; 65], true));
    assert!(!verify_algorithm_signature(SignatureAlgorithm::Secp256k1, &vec![2u8; 64], true));
}
