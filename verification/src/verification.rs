//! Proof verification: statement-kind matching, input-arity matching and
//! the pairing check.
//!
//! Loading verification keys is file work and stays with the embedding
//! program; everything from a loaded key onward is here. A malformed
//! artifact — a wrong kind tag, a public input count the key was not set
//! up for, bytes that do not decode — is a format error; a well-formed
//! but false proof verifies to `false`; `VerificationFailed` is reserved
//! for faults inside the pairing backend.

use vstd::prelude::*;

use ark_snark::SNARK;

use crate::error::ProverError;
use crate::field::{str_eq, string_new, FieldElement};
use crate::poseidon::values_of;
use crate::proofs::{proof_decodes, proof_of_bytes, Proof, ProofWithPublicInputs};
use crate::prover::{spec_file_name, Circuit};

verus! {

/// A Groth16 verifying key for the BN254 curve, held behind the arkworks
/// implementation.
#[verifier::external_body]
pub struct VerificationKey {
    /// The underlying arkworks verifying key. Kept crate-private so that
    /// every reachable value holds validated curve points: keys enter
    /// only through `vk_from_bytes`, whose deserializer checks them.
    pub(crate) inner: ark_groth16::VerifyingKey<ark_bn254::Bn254>,
}

/// Whether a byte string is an encoding the compressed verifying-key
/// deserializer accepts.
pub uninterp spec fn vk_decodes(bytes: Seq<u8>) -> bool;

/// The key an accepted encoding decodes to: deserialization is a
/// function of the bytes alone.
pub uninterp spec fn vk_of_bytes(bytes: Seq<u8>) -> VerificationKey;

/// One more than the number of public inputs the key was set up for: the
/// length of its input-commitment vector.
pub uninterp spec fn vk_arity_of(k: VerificationKey) -> nat;

/// What the Groth16 pairing check returns: a deterministic function of
/// the verifying key's and the proof's group elements and the ordered
/// public inputs.
pub uninterp spec fn groth16_accepts(vk: VerificationKey, proof: Proof, inputs: Seq<nat>) -> bool;

/// Whether the pairing computation degenerates (its Miller loop output
/// has no final exponentiation): a deterministic function of the same
/// values, and the backend's one failure mode beyond a wrong input
/// count.
pub uninterp spec fn groth16_degenerate(
    vk: VerificationKey,
    proof: Proof,
    inputs: Seq<nat>,
) -> bool;

/// Relies on `ark_serialize::CanonicalDeserialize::deserialize_compressed`
/// for `ark_groth16::VerifyingKey`: whether it accepts a byte string, and
/// which key it then returns, are functions of the bytes alone, and
/// accepted points are validated.
#[verifier::external_body]
pub fn vk_from_bytes(bytes: &[u8]) -> (r: Result<VerificationKey, ProverError>)
    ensures
        r is Ok <==> vk_decodes(bytes@),
        r is Ok ==> r->Ok_0 == vk_of_bytes(bytes@),
        r is Err ==> r->Err_0 is ArkError,
{
    match ark_serialize::CanonicalDeserialize::deserialize_compressed(bytes) {
        Ok(inner) => Ok(VerificationKey { inner }),
        Err(e) => Err(ProverError::ArkError(e.to_string())),
    }
}

/// Relies on the public `gamma_abc_g1` field of
/// `ark_groth16::VerifyingKey`: its length is one more than the number of
/// public inputs the key was set up for.
#[verifier::external_body]
fn vk_num_inputs(vk: &VerificationKey) -> (r: usize)
    ensures
        r as nat == vk_arity_of(*vk),
{
    vk.inner.gamma_abc_g1.len()
}

/// Relies on `ark_groth16::Groth16::verify` (through `ark_snark::SNARK`):
/// the pairing-based check is deterministic in the key's and the proof's
/// group elements and the public input values. It errs exactly when the
/// input count does not fit the key's arity or the pairing computation
/// degenerates; a false proof is `Ok(false)`, never an error.
#[verifier::external_body]
fn groth16_verify(
    vk: &VerificationKey,
    proof: &Proof,
    public_inputs: &Vec<FieldElement>,
) -> (r: Result<bool, ProverError>)
    ensures
        r is Ok <==> (public_inputs@.len() + 1 == vk_arity_of(*vk) && !groth16_degenerate(
            *vk,
            *proof,
            values_of(public_inputs@),
        )),
        r is Ok ==> r->Ok_0 == groth16_accepts(*vk, *proof, values_of(public_inputs@)),
        r is Err ==> r->Err_0 is VerificationFailed,
{
    let inputs: Vec<ark_bn254::Fr> = public_inputs.iter().map(|f| f.inner).collect();
    ark_groth16::Groth16::<ark_bn254::Bn254>::verify(&vk.inner, &inputs, &proof.inner).map_err(
        |e| ProverError::VerificationFailed { reason: e.to_string() },
    )
}

/// Verify a proof artifact against a loaded verifying key, insisting that
/// the artifact was produced for the expected statement kind and carries
/// as many public inputs as the key was set up for. A mismatch in either
/// is a malformed artifact — a format error, never a plain `false` and
/// never a backend fault.
pub fn verify_artifact(
    vk: &VerificationKey,
    expected: &Circuit,
    artifact: &ProofWithPublicInputs,
) -> (r: Result<bool, ProverError>)
    ensures
        artifact.circuit@ != spec_file_name(*expected) ==> (r matches Err(e)
            && e is InvalidProofFormat),
        artifact.circuit@ == spec_file_name(*expected) && artifact.public_inputs@.len() + 1
            != vk_arity_of(*vk) ==> (r matches Err(e) && e is InvalidProofFormat),
        artifact.circuit@ == spec_file_name(*expected) && artifact.public_inputs@.len() + 1
            == vk_arity_of(*vk) ==> {
            &&& r is Ok <==> !groth16_degenerate(
                *vk,
                artifact.proof,
                values_of(artifact.public_inputs@),
            )
            &&& r is Ok ==> r->Ok_0 == groth16_accepts(
                *vk,
                artifact.proof,
                values_of(artifact.public_inputs@),
            )
            &&& r is Err ==> r->Err_0 is VerificationFailed
        },
{
    if !str_eq(artifact.circuit.as_str(), expected.file_name()) {
        let mut reason = string_new();
        reason.append("expected ");
        reason.append(expected.file_name());
        reason.append(" proof, got ");
        reason.append(artifact.circuit.as_str());
        return Err(ProverError::InvalidProofFormat { reason });
    }
    let arity = vk_num_inputs(vk);
    if !(arity >= 1 && arity - 1 == artifact.public_inputs.len()) {
        return Err(ProverError::InvalidProofFormat {
            reason: String::from_str(
                "public input count does not match the verification key",
            ),
        });
    }
    groth16_verify(vk, &artifact.proof, &artifact.public_inputs)
}

/// Verify a threshold compliance proof against a loaded verifying key.
pub fn verify_threshold_with_key(vk: &VerificationKey, artifact: &ProofWithPublicInputs) -> (r:
    Result<bool, ProverError>)
    ensures
        artifact.circuit@ != spec_file_name(Circuit::Threshold) ==> (r matches Err(e)
            && e is InvalidProofFormat),
        artifact.circuit@ == spec_file_name(Circuit::Threshold) && artifact.public_inputs@.len()
            + 1 != vk_arity_of(*vk) ==> (r matches Err(e) && e is InvalidProofFormat),
        artifact.circuit@ == spec_file_name(Circuit::Threshold) && artifact.public_inputs@.len()
            + 1 == vk_arity_of(*vk) ==> {
            &&& r is Ok <==> !groth16_degenerate(
                *vk,
                artifact.proof,
                values_of(artifact.public_inputs@),
            )
            &&& r is Ok ==> r->Ok_0 == groth16_accepts(
                *vk,
                artifact.proof,
                values_of(artifact.public_inputs@),
            )
            &&& r is Err ==> r->Err_0 is VerificationFailed
        },
{
    verify_artifact(vk, &Circuit::Threshold, artifact)
}

/// Verify a range compliance proof against a loaded verifying key.
pub fn verify_range_with_key(vk: &VerificationKey, artifact: &ProofWithPublicInputs) -> (r: Result<
    bool,
    ProverError,
>)
    ensures
        artifact.circuit@ != spec_file_name(Circuit::Range) ==> (r matches Err(e)
            && e is InvalidProofFormat),
        artifact.circuit@ == spec_file_name(Circuit::Range) && artifact.public_inputs@.len() + 1
            != vk_arity_of(*vk) ==> (r matches Err(e) && e is InvalidProofFormat),
        artifact.circuit@ == spec_file_name(Circuit::Range) && artifact.public_inputs@.len() + 1
            == vk_arity_of(*vk) ==> {
            &&& r is Ok <==> !groth16_degenerate(
                *vk,
                artifact.proof,
                values_of(artifact.public_inputs@),
            )
            &&& r is Ok ==> r->Ok_0 == groth16_accepts(
                *vk,
                artifact.proof,
                values_of(artifact.public_inputs@),
            )
            &&& r is Err ==> r->Err_0 is VerificationFailed
        },
{
    verify_artifact(vk, &Circuit::Range, artifact)
}

/// Verify a tier membership proof against a loaded verifying key.
pub fn verify_tier_with_key(vk: &VerificationKey, artifact: &ProofWithPublicInputs) -> (r: Result<
    bool,
    ProverError,
>)
    ensures
        artifact.circuit@ != spec_file_name(Circuit::Tier) ==> (r matches Err(e)
            && e is InvalidProofFormat),
        artifact.circuit@ == spec_file_name(Circuit::Tier) && artifact.public_inputs@.len() + 1
            != vk_arity_of(*vk) ==> (r matches Err(e) && e is InvalidProofFormat),
        artifact.circuit@ == spec_file_name(Circuit::Tier) && artifact.public_inputs@.len() + 1
            == vk_arity_of(*vk) ==> {
            &&& r is Ok <==> !groth16_degenerate(
                *vk,
                artifact.proof,
                values_of(artifact.public_inputs@),
            )
            &&& r is Ok ==> r->Ok_0 == groth16_accepts(
                *vk,
                artifact.proof,
                values_of(artifact.public_inputs@),
            )
            &&& r is Err ==> r->Err_0 is VerificationFailed
        },
{
    verify_artifact(vk, &Circuit::Tier, artifact)
}

/// Verify a proof from raw serialized bytes and explicit public inputs,
/// bypassing the artifact wrapper: for callers that only have wire bytes.
/// Bytes that do not decode, or an input count the key was not set up
/// for, are rejected as format errors before any pairing work; the
/// verdict is tied to the proof the wire bytes decode to.
pub fn verify_raw(
    vk: &VerificationKey,
    proof_bytes: &[u8],
    public_inputs: &Vec<FieldElement>,
) -> (r: Result<bool, ProverError>)
    ensures
        !proof_decodes(proof_bytes@) ==> (r matches Err(e) && e is InvalidProofFormat),
        proof_decodes(proof_bytes@) && public_inputs@.len() + 1 != vk_arity_of(*vk) ==> (r matches
            Err(e) && e is InvalidProofFormat),
        proof_decodes(proof_bytes@) && public_inputs@.len() + 1 == vk_arity_of(*vk) ==> {
            &&& r is Ok <==> !groth16_degenerate(
                *vk,
                proof_of_bytes(proof_bytes@),
                values_of(public_inputs@),
            )
            &&& r is Ok ==> r->Ok_0 == groth16_accepts(
                *vk,
                proof_of_bytes(proof_bytes@),
                values_of(public_inputs@),
            )
            &&& r is Err ==> r->Err_0 is VerificationFailed
        },
{
    let proof = match Proof::from_bytes(proof_bytes) {
        Ok(p) => p,
        Err(e) => {
            return Err(e);
        },
    };
    let arity = vk_num_inputs(vk);
    if !(arity >= 1 && arity - 1 == public_inputs.len()) {
        return Err(ProverError::InvalidProofFormat {
            reason: String::from_str(
                "public input count does not match the verification key",
            ),
        });
    }
    groth16_verify(vk, &proof, public_inputs)
}

} // verus!
