use echo_id::codec::ChainMapping;
use echo_id::error::EchoIDError;
use echo_id::ledger::{
    add_chain_mapping, register_alias, update_reputation, verify_alias_ownership, AliasAccount,
    RegisterAliasParams, INITIAL_REPUTATION, MAX_CHAIN_MAPPINGS, MAX_REPUTATION_CHANGE,
};
use echo_id::merkle::{compute_merkle_root, hash_chain_mapping, root_with_appended_leaf};
use echo_id::zkp::{build_proof, parse_proof, serialize_proof, verify_proof, SerializableProof};

fn mapping(chain_id: u64, address: &[u8]) -> ChainMapping {
    ChainMapping { chain_id, address: address.to_vec(), metadata: Vec::new() }
}

fn sha256(bytes: &[u8]) -> [u8; 32] {
    <sha2::Sha256 as sha2::Digest>::digest(bytes).into()
}

fn registered_alice() -> AliasAccount {
    let params = RegisterAliasParams {
        username: String::from("alice"),
        public_key: [7u8; 32],
        initial_chain_mapping: mapping(1, b"0xAA"),
    };
    register_alias([3u8; 32], String::from("echo"), params, 1_000).unwrap()
}

#[test]
fn hash_leaf_is_deterministic() {
    let m = mapping(5, b"addr-five");
    assert_eq!(hash_chain_mapping(&m), hash_chain_mapping(&m));
    let again = mapping(5, b"addr-five");
    assert_eq!(hash_chain_mapping(&m), hash_chain_mapping(&again));
}

#[test]
fn hash_leaf_distinct_mappings_differ() {
    let mappings = vec![
        mapping(1, b"0xAA"),
        mapping(2, b"0xAA"),
        mapping(1, b"0xAB"),
        mapping(1, b""),
        mapping(0, b"0xAA"),
        ChainMapping { chain_id: 1, address: b"0xAA".to_vec(), metadata: b"m".to_vec() },
    ];
    for i in 0..mappings.len() {
        for j in 0..mappings.len() {
            if i != j {
                assert_ne!(hash_chain_mapping(&mappings[i]), hash_chain_mapping(&mappings[j]));
            }
        }
    }
}

#[test]
fn hash_leaf_matches_manual_encoding() {
    let m = ChainMapping { chain_id: 9, address: b"abc".to_vec(), metadata: b"xy".to_vec() };
    let mut encoded = Vec::new();
    encoded.extend_from_slice(&9u64.to_le_bytes());
    encoded.extend_from_slice(&3u64.to_le_bytes());
    encoded.extend_from_slice(b"abc");
    encoded.extend_from_slice(&2u64.to_le_bytes());
    encoded.extend_from_slice(b"xy");
    assert_eq!(hash_chain_mapping(&m), sha256(&encoded));
}

#[test]
fn single_leaf_root_is_the_leaf() {
    let leaf = hash_chain_mapping(&mapping(1, b"0xAA"));
    assert_eq!(compute_merkle_root(&vec![leaf]), leaf);
}

#[test]
fn two_leaf_root_matches_manual_digest() {
    let l0 = hash_chain_mapping(&mapping(1, b"0xAA"));
    let l1 = hash_chain_mapping(&mapping(2, b"0xBB"));
    let mut buf = Vec::new();
    buf.extend_from_slice(&l0);
    buf.extend_from_slice(&l1);
    assert_eq!(compute_merkle_root(&vec![l0, l1]), sha256(&buf));
}

#[test]
fn odd_leaf_count_duplicates_the_last_node() {
    let l0 = hash_chain_mapping(&mapping(1, b"a"));
    let l1 = hash_chain_mapping(&mapping(2, b"b"));
    let l2 = hash_chain_mapping(&mapping(3, b"c"));
    let mut left = Vec::new();
    left.extend_from_slice(&l0);
    left.extend_from_slice(&l1);
    let n0 = sha256(&left);
    let mut right = Vec::new();
    right.extend_from_slice(&l2);
    right.extend_from_slice(&l2);
    let n1 = sha256(&right);
    let mut top = Vec::new();
    top.extend_from_slice(&n0);
    top.extend_from_slice(&n1);
    assert_eq!(compute_merkle_root(&vec![l0, l1, l2]), sha256(&top));
}

#[test]
fn append_consistency_matches_full_rebuild() {
    let all: Vec<[u8; 32]> = (0..6u64).map(|i| hash_chain_mapping(&mapping(i, b"x"))).collect();
    let new_leaf = hash_chain_mapping(&mapping(99, b"new"));
    for n in 1..=5usize {
        let leaves: Vec<[u8; 32]> = all[..n].to_vec();
        let prior = compute_merkle_root(&leaves);
        let appended = root_with_appended_leaf(&leaves, &prior, &new_leaf).unwrap();
        let mut rebuilt = leaves.clone();
        rebuilt.push(new_leaf);
        assert_eq!(appended, compute_merkle_root(&rebuilt));
    }
}

#[test]
fn append_rejects_wrong_prior_root() {
    let leaves = vec![hash_chain_mapping(&mapping(1, b"0xAA"))];
    let new_leaf = hash_chain_mapping(&mapping(2, b"0xBB"));
    let wrong = [0u8; 32];
    assert_eq!(
        root_with_appended_leaf(&leaves, &wrong, &new_leaf),
        Err(EchoIDError::InvalidDerivedAccount)
    );
}

#[test]
fn register_sets_degenerate_root_count_and_reputation() {
    let acct = registered_alice();
    assert_eq!(acct.chain_mapping_count, 1);
    assert_eq!(acct.reputation, INITIAL_REPUTATION);
    assert_eq!(acct.reputation, 10);
    assert_eq!(acct.reputation_updated_at, 1_000);
    assert_eq!(acct.chain_mappings_root, hash_chain_mapping(&mapping(1, b"0xAA")));
    assert_eq!(acct.username, "alice");
    assert_eq!(acct.product_suffix, "echo");
    assert_eq!(acct.owner, [3u8; 32]);
    assert_eq!(acct.public_key, [7u8; 32]);
}

#[test]
fn register_rejects_at_sign_in_username() {
    let params = RegisterAliasParams {
        username: String::from("ali@ce"),
        public_key: [7u8; 32],
        initial_chain_mapping: mapping(1, b"0xAA"),
    };
    let r = register_alias([3u8; 32], String::from("echo"), params, 1_000);
    assert_eq!(r.err(), Some(EchoIDError::InvalidUsername));
}

#[test]
fn register_rejects_oversized_username() {
    let params = RegisterAliasParams {
        username: "a".repeat(33),
        public_key: [7u8; 32],
        initial_chain_mapping: mapping(1, b"0xAA"),
    };
    let r = register_alias([3u8; 32], String::from("echo"), params, 1_000);
    assert_eq!(r.err(), Some(EchoIDError::AliasTooLong));
}

#[test]
fn add_mapping_extends_root_and_count() {
    let mut acct = registered_alice();
    let witness = vec![mapping(1, b"0xAA")];
    let new_mapping = mapping(2, b"0xBB");
    add_chain_mapping(&mut acct, &witness, &new_mapping).unwrap();
    assert_eq!(acct.chain_mapping_count, 2);
    let expected = compute_merkle_root(&vec![
        hash_chain_mapping(&mapping(1, b"0xAA")),
        hash_chain_mapping(&mapping(2, b"0xBB")),
    ]);
    assert_eq!(acct.chain_mappings_root, expected);
}

#[test]
fn add_mapping_rejects_duplicate_chain_id() {
    let mut acct = registered_alice();
    let witness = vec![mapping(1, b"0xAA")];
    add_chain_mapping(&mut acct, &witness, &mapping(2, b"0xBB")).unwrap();
    let root_before = acct.chain_mappings_root;
    let witness2 = vec![mapping(1, b"0xAA"), mapping(2, b"0xBB")];
    let r = add_chain_mapping(&mut acct, &witness2, &mapping(1, b"0xCC"));
    assert_eq!(r, Err(EchoIDError::ChainIDAlreadyExists));
    assert_eq!(acct.chain_mapping_count, 2);
    assert_eq!(acct.chain_mappings_root, root_before);
}

#[test]
fn add_mapping_rejects_tampered_witness() {
    let mut acct = registered_alice();
    let tampered = vec![mapping(1, b"0xAB")];
    let root_before = acct.chain_mappings_root;
    let r = add_chain_mapping(&mut acct, &tampered, &mapping(2, b"0xBB"));
    assert_eq!(r, Err(EchoIDError::InvalidDerivedAccount));
    assert_eq!(acct.chain_mapping_count, 1);
    assert_eq!(acct.chain_mappings_root, root_before);
}

#[test]
fn add_mapping_rejects_empty_witness_for_populated_record() {
    let mut acct = registered_alice();
    let r = add_chain_mapping(&mut acct, &Vec::new(), &mapping(2, b"0xBB"));
    assert_eq!(r, Err(EchoIDError::InvalidDerivedAccount));
    assert_eq!(acct.chain_mapping_count, 1);
}

#[test]
fn add_mapping_rejects_at_capacity() {
    let mappings: Vec<ChainMapping> =
        (0..MAX_CHAIN_MAPPINGS as u64).map(|i| mapping(i, b"addr")).collect();
    let leaves: Vec<[u8; 32]> = mappings.iter().map(hash_chain_mapping).collect();
    let mut acct = registered_alice();
    acct.chain_mappings_root = compute_merkle_root(&leaves);
    acct.chain_mapping_count = MAX_CHAIN_MAPPINGS;
    let root_before = acct.chain_mappings_root;
    let r = add_chain_mapping(&mut acct, &mappings, &mapping(999, b"fresh"));
    assert_eq!(r, Err(EchoIDError::MaxChainMappingsReached));
    assert_eq!(acct.chain_mapping_count, MAX_CHAIN_MAPPINGS);
    assert_eq!(acct.chain_mappings_root, root_before);
}

#[test]
fn capacity_is_reached_by_repeated_adds() {
    let mut acct = registered_alice();
    let mut witness = vec![mapping(1, b"0xAA")];
    for i in 2..=MAX_CHAIN_MAPPINGS as u64 {
        let next = mapping(i, b"addr");
        add_chain_mapping(&mut acct, &witness, &next).unwrap();
        witness.push(next);
    }
    assert_eq!(acct.chain_mapping_count, MAX_CHAIN_MAPPINGS);
    let r = add_chain_mapping(&mut acct, &witness, &mapping(1_000, b"late"));
    assert_eq!(r, Err(EchoIDError::MaxChainMappingsReached));
    assert_eq!(acct.chain_mapping_count, MAX_CHAIN_MAPPINGS);
}

#[test]
fn update_reputation_applies_change_and_refreshes_timestamp() {
    let mut acct = registered_alice();
    let r = update_reputation(&mut acct, 5, 2_000);
    assert_eq!(r, Ok(15));
    assert_eq!(acct.reputation, 15);
    assert_eq!(acct.reputation_updated_at, 2_000);
}

#[test]
fn update_reputation_rejects_out_of_policy_change() {
    let mut acct = registered_alice();
    update_reputation(&mut acct, 5, 2_000).unwrap();
    let r = update_reputation(&mut acct, -1_000, 3_000);
    assert_eq!(r, Err(EchoIDError::InvalidReputationChange));
    assert_eq!(acct.reputation, 15);
    assert_eq!(acct.reputation_updated_at, 2_000);
}

#[test]
fn update_reputation_rejects_negative_result() {
    let mut acct = registered_alice();
    let r = update_reputation(&mut acct, -11, 2_000);
    assert_eq!(r, Err(EchoIDError::InvalidReputationChange));
    assert_eq!(acct.reputation, 10);
    assert_eq!(acct.reputation_updated_at, 1_000);
}

#[test]
fn update_reputation_accepts_boundary_magnitude() {
    let mut acct = registered_alice();
    let r = update_reputation(&mut acct, MAX_REPUTATION_CHANGE, 2_000);
    assert_eq!(r, Ok(110));
    let r2 = update_reputation(&mut acct, -MAX_REPUTATION_CHANGE, 3_000);
    assert_eq!(r2, Ok(10));
}

#[test]
fn proof_round_trips_through_wire_form() {
    let proof = SerializableProof { commitment: [5u8; 32], response: [9u8; 32] };
    let bytes = serialize_proof(&proof);
    assert_eq!(bytes.len(), 64);
    let parsed = parse_proof(&bytes).unwrap();
    assert_eq!(parsed.commitment, proof.commitment);
    assert_eq!(parsed.response, proof.response);
}

#[test]
fn parse_rejects_wrong_length() {
    assert_eq!(parse_proof(&[0u8; 63]).err(), Some(EchoIDError::InvalidInstruction));
    assert_eq!(parse_proof(&[0u8; 65]).err(), Some(EchoIDError::InvalidInstruction));
    assert_eq!(parse_proof(&[]).err(), Some(EchoIDError::InvalidInstruction));
}

#[test]
fn valid_proof_verifies_true() {
    let acct = registered_alice();
    let context = b"alice@echo";
    let proof = build_proof([42u8; 32], &acct.public_key, context);
    let bytes = serialize_proof(&proof);
    assert_eq!(verify_alias_ownership(&acct, &bytes), Ok(true));
}

#[test]
fn proof_for_other_public_key_verifies_false() {
    let acct = registered_alice();
    let context = b"alice@echo";
    let other_key = [8u8; 32];
    let proof = build_proof([42u8; 32], &other_key, context);
    let bytes = serialize_proof(&proof);
    assert_eq!(verify_alias_ownership(&acct, &bytes), Ok(false));
}

#[test]
fn proof_for_other_context_verifies_false() {
    let acct = registered_alice();
    let proof = build_proof([42u8; 32], &acct.public_key, b"mallory@echo");
    let bytes = serialize_proof(&proof);
    assert_eq!(verify_alias_ownership(&acct, &bytes), Ok(false));
}

#[test]
fn bit_flipped_proof_verifies_false() {
    let acct = registered_alice();
    let proof = build_proof([42u8; 32], &acct.public_key, b"alice@echo");
    let good = serialize_proof(&proof);
    for flip_at in [0usize, 31, 32, 63] {
        let mut bytes = good.clone();
        bytes[flip_at] ^= 1;
        assert_eq!(verify_alias_ownership(&acct, &bytes), Ok(false));
    }
}

#[test]
fn malformed_proof_bytes_are_an_error_not_false() {
    let acct = registered_alice();
    assert_eq!(verify_alias_ownership(&acct, &[1u8; 10]), Err(EchoIDError::InvalidInstruction));
}

#[test]
fn direct_proof_check_matches_ledger_verdict() {
    let acct = registered_alice();
    let context = b"alice@echo";
    let proof = build_proof([42u8; 32], &acct.public_key, context);
    assert!(verify_proof(&proof, &acct.public_key, context));
    assert!(!verify_proof(&proof, &[8u8; 32], context));
}

#[test]
fn challenge_formula_matches_manual_digest() {
    let commitment = [42u8; 32];
    let public_key = [7u8; 32];
    let context = b"alice@echo";
    let mut buf = Vec::new();
    buf.extend_from_slice(&commitment);
    buf.extend_from_slice(&public_key);
    buf.extend_from_slice(context);
    let proof = build_proof(commitment, &public_key, context);
    assert_eq!(proof.response, sha256(&buf));
}

#[test]
fn register_accepts_username_at_length_limit() {
    let params = RegisterAliasParams {
        username: "a".repeat(32),
        public_key: [7u8; 32],
        initial_chain_mapping: mapping(1, b"0xAA"),
    };
    let acct = register_alias([3u8; 32], String::from("echo"), params, 1_000).unwrap();
    assert_eq!(acct.username.len(), 32);
    assert_eq!(acct.chain_mapping_count, 1);
}
