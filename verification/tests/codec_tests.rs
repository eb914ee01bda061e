//! Proof serializations: binary, hex, JSON schema, Solidity calldata.

use zk_prover::field::fe_from_u64;
use zk_prover::proofs::{Proof, ProofWithPublicInputs};

fn sample_proof() -> Proof {
    let inner = ark_groth16::Proof::<ark_bn254::Bn254>::default();
    let mut bytes = Vec::new();
    ark_serialize::CanonicalSerialize::serialize_compressed(&inner, &mut bytes).unwrap();
    Proof::from_bytes(&bytes).unwrap()
}

#[test]
fn bytes_round_trip() {
    let p = sample_proof();
    let bytes = p.to_bytes().unwrap();
    let q = Proof::from_bytes(&bytes).unwrap();
    assert_eq!(q.to_bytes().unwrap(), bytes);
}

#[test]
fn hex_round_trip() {
    let p = sample_proof();
    let hex_str = p.to_hex().unwrap();
    assert!(hex_str.chars().all(|c| c.is_ascii_hexdigit()));
    assert_eq!(hex_str, hex_str.to_lowercase());
    let q = Proof::from_hex(&hex_str).unwrap();
    assert_eq!(q.to_hex().unwrap(), hex_str);
}

#[test]
fn from_hex_rejects_malformed_input() {
    assert!(Proof::from_hex("zz").is_err());
    assert!(Proof::from_hex("abc").is_err());
    // Well-formed hex that is not a proof encoding (truncated).
    assert!(Proof::from_hex("abcd").is_err());
    assert!(Proof::from_bytes(&[1u8, 2, 3]).is_err());
}

#[test]
fn json_shape() {
    let p = sample_proof();
    let json = p.to_json().unwrap();
    assert_eq!(json.pi_a.len(), 3);
    assert_eq!(json.pi_a[2], "1");
    assert_eq!(json.pi_b.len(), 3);
    assert_eq!(json.pi_b[0].len(), 2);
    assert_eq!(json.pi_b[1].len(), 2);
    assert_eq!(json.pi_b[2], vec!["1".to_string(), "0".to_string()]);
    assert_eq!(json.pi_c.len(), 3);
    assert_eq!(json.pi_c[2], "1");
    assert_eq!(json.protocol, "groth16");
    assert_eq!(json.curve, "bn128");
}

#[test]
fn calldata_reverses_second_pairing_coordinates() {
    let p = sample_proof();
    let json = p.to_json().unwrap();
    let calldata = p.to_solidity_calldata(&[fe_from_u64(42)]).unwrap();
    assert_eq!(calldata.a, vec![json.pi_a[0].clone(), json.pi_a[1].clone()]);
    // The calldata carries each second-pairing coordinate pair reversed
    // relative to the JSON schema.
    assert_eq!(calldata.b[0][0], json.pi_b[0][1]);
    assert_eq!(calldata.b[0][1], json.pi_b[0][0]);
    assert_eq!(calldata.b[1][0], json.pi_b[1][1]);
    assert_eq!(calldata.b[1][1], json.pi_b[1][0]);
    assert_eq!(calldata.c, vec![json.pi_c[0].clone(), json.pi_c[1].clone()]);
    assert_eq!(calldata.inputs, vec!["42".to_string()]);
}

#[test]
fn solidity_call_formatting() {
    let p = sample_proof();
    let calldata = p.to_solidity_calldata(&[fe_from_u64(7), fe_from_u64(8)]).unwrap();
    let call = calldata.to_solidity_call();
    let expected = format!(
        "verifyProof(\n  [{}, {}],\n  [[{}, {}], [{}, {}]],\n  [{}, {}],\n  [7, 8]\n)",
        calldata.a[0],
        calldata.a[1],
        calldata.b[0][0],
        calldata.b[0][1],
        calldata.b[1][0],
        calldata.b[1][1],
        calldata.c[0],
        calldata.c[1],
    );
    assert_eq!(call, expected);
}

#[test]
fn artifact_json_preserves_inputs_and_kind() {
    let artifact = ProofWithPublicInputs::new(
        sample_proof(),
        vec![fe_from_u64(8000), fe_from_u64(123456789), fe_from_u64(55)],
        "compliance_threshold".to_string(),
    );
    let json = artifact.to_json().unwrap();
    assert_eq!(
        json.public_inputs,
        vec!["8000".to_string(), "123456789".to_string(), "55".to_string()]
    );
    assert_eq!(json.circuit, "compliance_threshold");
    assert_eq!(json.proof.protocol, "groth16");
}

#[test]
fn score_commitment_is_last_public_input() {
    let artifact = ProofWithPublicInputs::new(
        sample_proof(),
        vec![fe_from_u64(1), fe_from_u64(2), fe_from_u64(3)],
        "compliance_threshold".to_string(),
    );
    let c = artifact.score_commitment().unwrap();
    assert!(zk_prover::field::fe_eq(c, &fe_from_u64(3)));

    let empty = ProofWithPublicInputs::new(sample_proof(), vec![], "range_proof".to_string());
    assert!(empty.score_commitment().is_none());
}
