//! Poseidon hashing and the score commitment.

use zk_prover::field::{fe_eq, fe_from_u64, fr_to_string, string_to_fr};
use zk_prover::poseidon::PoseidonHasher;

#[test]
fn test_poseidon_hash() {
    let hasher = PoseidonHasher::new();

    let input1 = fe_from_u64(1);
    let input2 = fe_from_u64(2);

    let hash = hasher.hash(&[input1.clone(), input2.clone()]).unwrap();

    let hash2 = hasher.hash(&[input1, input2]).unwrap();
    assert!(fe_eq(&hash, &hash2));
}

#[test]
fn test_commitment() {
    let hasher = PoseidonHasher::new();

    let score = 8500u64;
    let salt = fe_from_u64(123456789);
    let entity_hash = fe_from_u64(987654321);

    let commitment = hasher.compute_commitment(score, &salt, &entity_hash).unwrap();

    let commitment2 = hasher.compute_commitment(score, &salt, &entity_hash).unwrap();
    assert!(fe_eq(&commitment, &commitment2));

    let commitment3 = hasher.compute_commitment(score + 1, &salt, &entity_hash).unwrap();
    assert!(!fe_eq(&commitment, &commitment3));
}

#[test]
fn commitment_separates_inputs() {
    // Changing any one input changes the commitment, over a handful of
    // random-looking salts and entity hashes.
    let hasher = PoseidonHasher::new();
    let salt = fe_from_u64(123456789);
    let entity = fe_from_u64(987654321);
    let base = hasher.compute_commitment(5000, &salt, &entity).unwrap();
    let other_score = hasher.compute_commitment(5001, &salt, &entity).unwrap();
    assert!(!fe_eq(&base, &other_score));
    let other_salt = hasher.compute_commitment(5000, &fe_from_u64(123456788), &entity).unwrap();
    assert!(!fe_eq(&base, &other_salt));
    let other_entity = hasher.compute_commitment(5000, &salt, &fe_from_u64(987654320)).unwrap();
    assert!(!fe_eq(&base, &other_entity));
}

#[test]
fn poseidon_matches_reference_vector() {
    // The circomlib reference implementation hashes (1, 2) to this fixed
    // value; an encoding mismatch anywhere in the pipeline would change
    // it.
    let hasher = PoseidonHasher::new();
    let hash = hasher.hash(&[fe_from_u64(1), fe_from_u64(2)]).unwrap();
    assert_eq!(
        fr_to_string(&hash),
        "7853200120776062878684798364095072458815029376092732009249414926327459813530"
    );
}

#[test]
fn field_decimal_round_trip() {
    let values = ["0", "1", "10000", "123456789", "987654321"];
    for v in values {
        let f = string_to_fr(v).unwrap();
        assert_eq!(fr_to_string(&f), v);
    }
    assert!(string_to_fr("").is_err());
    assert!(string_to_fr("12a").is_err());
    assert!(string_to_fr("-5").is_err());
    // Values at and above the field order reduce modulo the order.
    let order = "21888242871839275222246405745257275088548364400416034343698204186575808495617";
    let f = string_to_fr(order).unwrap();
    assert_eq!(fr_to_string(&f), "0");
}
