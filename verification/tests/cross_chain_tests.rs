use perigee::address::Addr;
use perigee::bridge::{
    layerzero_path_proof, wormhole_guardian_proof, BridgeProtocol, CrossChainMessage,
    SignatureAlgorithm,
};
use perigee::cross_chain::{CrossChainVerifier, SignedMessage, SignerError, VerificationInputs};
use soroban_sdk::testutils::EnvTestConfig;
use soroban_sdk::Env;

fn env() -> Env {
    Env::new_with_config(EnvTestConfig { capture_snapshot_at_drop: false })
}

fn setup() -> CrossChainVerifier {
    let mut v = CrossChainVerifier::new();
    v.initialize(Addr::new(b"GADMIN".to_vec()));
    v
}

fn sha(env: &Env, data: &[u8]) -> Vec<u8> {
    env.crypto().sha256(&soroban_sdk::Bytes::from_slice(env, data)).to_array().to_vec()
}

fn signed(nonce: u64, revocation_nonce: u64) -> SignedMessage {
    SignedMessage {
        message: CrossChainMessage {
            source_chain: 1,
            destination_chain: 2,
            nonce,
            payload: b"hi".to_vec(),
            timestamp: 100,
        },
        signature: vec![0u8; 64],
        signer_public_key: vec![1u8; 32],
        algorithm: SignatureAlgorithm::Ed25519,
        revocation_nonce,
    }
}

fn inputs(root: Option<Vec<u8>>) -> VerificationInputs {
    VerificationInputs {
        signer_algorithm: Some(SignatureAlgorithm::Ed25519),
        current_revocation_nonce: Some(0),
        host_accepts_signature: true,
        message_processed: false,
        expected_root: root,
    }
}

#[test]
fn test_initialization_enables_native_only() {
    let v = setup();
    let protocols = v.get_enabled_bridge_protocols();
    assert_eq!(protocols.len(), 1);
    assert_eq!(protocols[0], BridgeProtocol::Native);
}

#[test]
fn test_enable_layerzero_and_wormhole() {
    let mut v = setup();
    assert!(v.enable_bridge_protocol(BridgeProtocol::LayerZero));
    assert!(v.enable_bridge_protocol(BridgeProtocol::Wormhole));
    assert!(!v.enable_bridge_protocol(BridgeProtocol::LayerZero));
    assert_eq!(v.get_enabled_bridge_protocols().len(), 3);
}

#[test]
fn test_layerzero_disabled_rejects_verification() {
    let env = env();
    let v = setup();
    let bridge_proof = layerzero_path_proof(1, 2);
    let ok = v.verify_signed_message_with_protocol(
        &env,
        &signed(7, 0),
        BridgeProtocol::LayerZero,
        &bridge_proof,
        &mut inputs(None),
        &Vec::new(),
        &Vec::new(),
    );
    assert!(!ok);
}

#[test]
fn test_root_update_and_merkle_verify() {
    let env = env();
    let leaf = vec![2u8; 32];
    let sibling = vec![3u8; 32];
    let mut combined = sibling.clone();
    combined.extend_from_slice(&leaf);
    let root = sha(&env, &combined);
    assert!(CrossChainVerifier::verify_message(&env, &Some(root), &leaf, &vec![sibling], &vec![true]));
}

#[test]
fn test_wormhole_path_helpers_roundtrip() {
    let proof = wormhole_guardian_proof(13, 1);
    assert_eq!(proof.protocol, BridgeProtocol::Wormhole);
    assert_eq!(proof.proof_data.len(), 5);
}

#[test]
fn merkle_flags_choose_the_hashing_order() {
    let env = env();
    let leaf = vec![2u8; 32];
    let sibling = vec![3u8; 32];
    let mut combined = leaf.clone();
    combined.extend_from_slice(&sibling);
    let root = sha(&env, &combined);
    // Sibling on the right: leaf || sibling.
    assert!(CrossChainVerifier::verify_message(&env, &Some(root.clone()), &leaf, &vec![sibling.clone()], &vec![false]));
    assert!(!CrossChainVerifier::verify_message(&env, &Some(root.clone()), &leaf, &vec![sibling.clone()], &vec![true]));
    // No stored root, or mismatched flags: never verified.
    assert!(!CrossChainVerifier::verify_message(&env, &None, &leaf, &vec![sibling.clone()], &vec![false]));
    assert!(!CrossChainVerifier::verify_message(&env, &Some(root), &leaf, &vec![sibling], &vec![]));
    // An empty path verifies the leaf against itself.
    assert!(CrossChainVerifier::verify_message(&env, &Some(leaf.clone()), &leaf, &vec![], &vec![]));
}

#[test]
fn full_native_verification_and_replay_protection() {
    let env = env();
    let v = setup();
    let msg = signed(7, 0);
    let digest = perigee::bridge::hash_for_protocol(
        &env,
        BridgeProtocol::Native,
        &msg.message,
        &perigee::bridge::empty_native_proof(),
    );
    // A one-leaf tree: the digest is the root.
    let mut first = inputs(Some(digest.clone()));
    let ok = v.verify_signed_message(&env, &msg, &mut first, &vec![], &vec![]);
    assert!(ok);
    // The success marks the digest processed, so the same call now fails.
    assert!(first.message_processed);
    assert!(!v.verify_signed_message(&env, &msg, &mut first, &vec![], &vec![]));
    let mut replay = inputs(Some(digest.clone()));
    replay.message_processed = true;
    assert!(!v.verify_signed_message(&env, &msg, &mut replay, &vec![], &vec![]));
    let mut revoked = inputs(Some(digest.clone()));
    revoked.current_revocation_nonce = Some(3);
    assert!(!v.verify_signed_message(&env, &signed(7, 2), &mut revoked, &vec![], &vec![]));
    assert!(!revoked.message_processed);
    let mut unknown = inputs(Some(digest));
    unknown.signer_algorithm = None;
    assert!(!v.verify_signed_message(&env, &msg, &mut unknown, &vec![], &vec![]));
}

#[test]
fn signer_count_and_revocation_nonces() {
    let mut v = setup();
    assert_eq!(v.get_signer_count(), 0);
    let (mut alg_a, mut nonce_a) = (None, None);
    // A key registered elsewhere with a stored revocation nonce of 4.
    let (mut alg_b, mut nonce_b) = (Some(SignatureAlgorithm::Secp256k1), Some(4u64));
    assert_eq!(v.add_authorized_signer(&mut alg_a, &mut nonce_a, SignatureAlgorithm::Ed25519), Ok(()));
    assert_eq!((alg_a, nonce_a), (Some(SignatureAlgorithm::Ed25519), Some(0)));
    assert_eq!(
        v.add_authorized_signer(&mut alg_a, &mut nonce_a, SignatureAlgorithm::Secp256k1),
        Err(SignerError::AlreadyAuthorized)
    );
    assert_eq!(alg_a, Some(SignatureAlgorithm::Ed25519));
    v.add_authorized_signer(&mut None, &mut None, SignatureAlgorithm::Ed25519).unwrap();
    assert_eq!(v.get_signer_count(), 2);
    assert_eq!(v.remove_authorized_signer(&mut alg_a, &mut nonce_a), Ok(1));
    assert_eq!((alg_a, nonce_a), (None, Some(1)));
    assert_eq!(v.remove_authorized_signer(&mut alg_b, &mut nonce_b), Ok(5));
    assert_eq!((alg_b, nonce_b), (None, Some(5)));
    assert_eq!(v.get_signer_count(), 0);
    // Removing an unknown key is refused and changes nothing.
    assert_eq!(v.remove_authorized_signer(&mut alg_a, &mut nonce_a), Err(SignerError::NotFound));
    assert_eq!((alg_a, nonce_a), (None, Some(1)));
    assert_eq!(v.get_signer_count(), 0);
    // The count never goes below zero.
    let mut alg_c = Some(SignatureAlgorithm::Ed25519);
    assert_eq!(v.remove_authorized_signer(&mut alg_c, &mut None), Ok(1));
    assert_eq!(v.get_signer_count(), 0);
    assert!(!CrossChainVerifier::is_nonce_processed(None));
    assert!(CrossChainVerifier::is_nonce_processed(Some(true)));
}

#[test]
fn removed_signer_no_longer_verifies() {
    let env = env();
    let mut v = setup();
    let msg = signed(9, 0);
    let digest = perigee::bridge::hash_for_protocol(
        &env,
        BridgeProtocol::Native,
        &msg.message,
        &perigee::bridge::empty_native_proof(),
    );
    let (mut alg, mut nonce) = (None, None);
    v.add_authorized_signer(&mut alg, &mut nonce, SignatureAlgorithm::Ed25519).unwrap();
    let mut before = inputs(Some(digest.clone()));
    before.signer_algorithm = alg;
    before.current_revocation_nonce = nonce;
    assert!(v.verify_signed_message(&env, &msg, &mut before, &vec![], &vec![]));
    v.remove_authorized_signer(&mut alg, &mut nonce).unwrap();
    let mut after = inputs(Some(digest));
    after.signer_algorithm = alg;
    after.current_revocation_nonce = nonce;
    assert!(!v.verify_signed_message(&env, &signed(10, 1), &mut after, &vec![], &vec![]));
}

#[test]
fn consuming_a_nonce_marks_it_processed() {
    let env = env();
    let leaf = vec![5u8; 32];
    let mut processed = false;
    assert!(CrossChainVerifier::verify_message_and_consume(
        &env,
        &mut processed,
        &Some(leaf.clone()),
        &leaf,
        &vec![],
        &vec![]
    ));
    assert!(processed);
    let mut untouched = false;
    assert!(!CrossChainVerifier::verify_message_and_consume(&env, &mut untouched, &None, &leaf, &vec![], &vec![]));
    assert!(!untouched);
}
