//! End-to-end verification through the Groth16 backend, and
//! statement-kind matching.

use ark_bn254::{Bn254, Fr};
use ark_relations::r1cs::{
    ConstraintSynthesizer, ConstraintSystemRef, LinearCombination, SynthesisError,
};
use ark_snark::{CircuitSpecificSetupSNARK, SNARK};
use ark_std::rand::rngs::StdRng;
use ark_std::rand::SeedableRng;

use zk_prover::error::ProverError;
use zk_prover::field::fe_from_u64;
use zk_prover::proofs::{Proof, ProofWithPublicInputs};
use zk_prover::prover::Circuit;
use zk_prover::verification::{
    verify_artifact, verify_range_with_key, verify_threshold_with_key, vk_from_bytes,
    VerificationKey,
};

#[test]
fn test_circuit_names() {
    assert_eq!(Circuit::Threshold.file_name(), "compliance_threshold");
    assert_eq!(Circuit::Range.file_name(), "range_proof");
    assert_eq!(Circuit::Tier.file_name(), "tier_membership");
}

#[test]
fn key_store_paths() {
    assert_eq!(
        zk_prover::prover::proving_key_path("./build", &Circuit::Threshold),
        "./build/compliance_threshold/proving_key.zkey"
    );
    assert_eq!(
        zk_prover::prover::verification_key_path("./build", &Circuit::Range),
        "./build/range_proof/verification_key.json"
    );
    assert_eq!(
        zk_prover::prover::wasm_path("./build", &Circuit::Tier),
        "./build/tier_membership/tier_membership_js/tier_membership.wasm"
    );
    assert_eq!(
        zk_prover::prover::r1cs_path("./build", &Circuit::Tier),
        "./build/tier_membership/tier_membership.r1cs"
    );
}

/// A minimal statement for exercising the proving backend: the prover
/// knows factors of a public product.
struct ProductCircuit {
    factor_a: Option<Fr>,
    factor_b: Option<Fr>,
    product: Fr,
}

impl ConstraintSynthesizer<Fr> for ProductCircuit {
    fn generate_constraints(self, cs: ConstraintSystemRef<Fr>) -> Result<(), SynthesisError> {
        let a = cs.new_witness_variable(|| self.factor_a.ok_or(SynthesisError::AssignmentMissing))?;
        let b = cs.new_witness_variable(|| self.factor_b.ok_or(SynthesisError::AssignmentMissing))?;
        let c = cs.new_input_variable(|| Ok(self.product))?;
        cs.enforce_constraint(
            LinearCombination::from(a),
            LinearCombination::from(b),
            LinearCombination::from(c),
        )?;
        Ok(())
    }
}

fn proved_artifact(kind: &str) -> (VerificationKey, ProofWithPublicInputs) {
    let mut rng = StdRng::seed_from_u64(42);
    let circuit = ProductCircuit {
        factor_a: Some(Fr::from(85u64)),
        factor_b: Some(Fr::from(100u64)),
        product: Fr::from(8500u64),
    };
    let (pk, vk) = ark_groth16::Groth16::<Bn254>::setup(
        ProductCircuit {
            factor_a: Some(Fr::from(1u64)),
            factor_b: Some(Fr::from(1u64)),
            product: Fr::from(1u64),
        },
        &mut rng,
    )
    .unwrap();
    let proof = ark_groth16::Groth16::<Bn254>::prove(&pk, circuit, &mut rng).unwrap();
    let mut proof_bytes = Vec::new();
    ark_serialize::CanonicalSerialize::serialize_compressed(&proof, &mut proof_bytes).unwrap();
    let mut vk_bytes = Vec::new();
    ark_serialize::CanonicalSerialize::serialize_compressed(&vk, &mut vk_bytes).unwrap();
    let artifact = ProofWithPublicInputs::new(
        Proof::from_bytes(&proof_bytes).unwrap(),
        vec![fe_from_u64(8500)],
        kind.to_string(),
    );
    (vk_from_bytes(&vk_bytes).unwrap(), artifact)
}

#[test]
fn end_to_end_threshold_scenario() {
    // A proof produced by the backend verifies as true through the
    // library's verification path.
    let (vk, artifact) = proved_artifact("compliance_threshold");
    assert_eq!(verify_threshold_with_key(&vk, &artifact).unwrap(), true);
}

#[test]
fn false_proof_returns_false_not_error() {
    // A well-formed proof over the wrong public input is a normal
    // rejection: `false`, never an error.
    let (vk, artifact) = proved_artifact("compliance_threshold");
    let wrong = ProofWithPublicInputs::new(
        artifact.proof.clone(),
        vec![fe_from_u64(8501)],
        "compliance_threshold".to_string(),
    );
    assert_eq!(verify_threshold_with_key(&vk, &wrong).unwrap(), false);
}

#[test]
fn kind_mismatch_is_a_format_error() {
    // Overwriting the artifact's kind tag makes every verifier for
    // another statement reject it as malformed, before any pairing work.
    let (vk, artifact) = proved_artifact("range_proof");
    match verify_threshold_with_key(&vk, &artifact) {
        Err(ProverError::InvalidProofFormat { reason }) => {
            assert_eq!(reason, "expected compliance_threshold proof, got range_proof");
        }
        other => panic!("expected InvalidProofFormat, got {:?}", other),
    }
    // With the matching verifier the same artifact is accepted.
    assert_eq!(verify_range_with_key(&vk, &artifact).unwrap(), true);
}

#[test]
fn verify_raw_round_trip() {
    let (vk, artifact) = proved_artifact("compliance_threshold");
    let bytes = artifact.proof.to_bytes().unwrap();
    let inputs = vec![fe_from_u64(8500)];
    assert_eq!(zk_prover::verification::verify_raw(&vk, &bytes, &inputs).unwrap(), true);
    match zk_prover::verification::verify_raw(&vk, &[1u8, 2, 3], &inputs) {
        Err(ProverError::InvalidProofFormat { .. }) => {}
        other => panic!("expected InvalidProofFormat, got {:?}", other),
    }
}

#[test]
fn input_arity_mismatch_is_a_format_error() {
    // An artifact whose kind tag passes but whose public input count does
    // not fit the key it is checked against is malformed: a format
    // error before any pairing work, never a backend fault.
    let (vk, artifact) = proved_artifact("compliance_threshold");
    let padded = ProofWithPublicInputs::new(
        artifact.proof.clone(),
        vec![fe_from_u64(8500), fe_from_u64(1)],
        "compliance_threshold".to_string(),
    );
    match verify_threshold_with_key(&vk, &padded) {
        Err(ProverError::InvalidProofFormat { reason }) => {
            assert_eq!(reason, "public input count does not match the verification key");
        }
        other => panic!("expected InvalidProofFormat, got {:?}", other),
    }
    let empty = ProofWithPublicInputs::new(
        artifact.proof.clone(),
        vec![],
        "compliance_threshold".to_string(),
    );
    assert!(matches!(
        verify_threshold_with_key(&vk, &empty),
        Err(ProverError::InvalidProofFormat { .. })
    ));
    // verify_raw applies the same gate.
    let bytes = artifact.proof.to_bytes().unwrap();
    assert!(matches!(
        zk_prover::verification::verify_raw(&vk, &bytes, &vec![]),
        Err(ProverError::InvalidProofFormat { .. })
    ));
}

#[test]
fn verify_artifact_checks_each_kind() {
    let (vk, artifact) = proved_artifact("tier_membership");
    assert!(verify_artifact(&vk, &Circuit::Tier, &artifact).unwrap());
    assert!(verify_artifact(&vk, &Circuit::Range, &artifact).is_err());
    assert!(verify_artifact(&vk, &Circuit::Threshold, &artifact).is_err());
}
