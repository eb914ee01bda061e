//! Poseidon commitment hashing, interoperable with the circomlib
//! reference implementation.

use vstd::prelude::*;

use crate::error::ProverError;
use crate::field::{fr_nat, fr_order, FieldElement};
use ff_ce::PrimeField as PoseidonPrimeField;

verus! {

/// What the Poseidon permutation returns on a sequence of field element
/// values. The hash is deterministic and depends on the inputs alone, so
/// the result carries a name rather than a transcription of the rounds.
pub uninterp spec fn poseidon_of(inputs: Seq<nat>) -> nat;

/// The canonical values of a sequence of field elements.
pub open spec fn values_of(inputs: Seq<FieldElement>) -> Seq<nat> {
    inputs.map(|i: int, f: FieldElement| fr_nat(f))
}

/// The commitment binding a score, a salt and an entity hash into one
/// public value: the Poseidon hash of the three, in that order.
pub open spec fn commitment_nat(score: u64, salt: nat, entity: nat) -> nat {
    poseidon_of(seq![score as nat, salt, entity])
}

/// Relies on `poseidon_rs::Poseidon::hash`, which runs over the same
/// scalar field: it fails exactly on an empty input or more than sixteen
/// inputs, and otherwise returns the Poseidon hash, a function of the
/// input values alone.
#[verifier::external_body]
fn poseidon_hash_raw(inputs: &[FieldElement]) -> (r: Result<FieldElement, ProverError>)
    ensures
        r is Ok <==> 1 <= inputs@.len() <= 16,
        r is Ok ==> fr_nat(r->Ok_0) == poseidon_of(values_of(inputs@)),
        r is Ok ==> fr_nat(r->Ok_0) < fr_order(),
{
    let mut ps: Vec<poseidon_rs::Fr> = Vec::with_capacity(inputs.len());
    for f in inputs.iter() {
        let dec = ark_ff::PrimeField::into_bigint(f.inner).to_string();
        ps.push(PoseidonPrimeField::from_str(&dec).ok_or_else(|| {
            ProverError::ArkError("field element conversion failed".to_string())
        })?);
    }
    let h = poseidon_rs::Poseidon::new().hash(ps).map_err(ProverError::ArkError)?;
    let hex_digits = h.to_string();
    let hex_digits = hex_digits.trim_start_matches("Fr(0x").trim_end_matches(')');
    let n = num_bigint::BigUint::parse_bytes(hex_digits.as_bytes(), 16).ok_or_else(|| {
        ProverError::ArkError("hash output conversion failed".to_string())
    })?;
    Ok(FieldElement { inner: ark_ff::PrimeField::from_be_bytes_mod_order(&n.to_bytes_be()) })
}

/// Poseidon hasher compatible with circomlib circuits. The hasher has no
/// configuration beyond fixed protocol constants, so the value is empty.
pub struct PoseidonHasher {}

impl Default for PoseidonHasher {
    fn default() -> (r: Self)
        ensures
            true,
    {
        PoseidonHasher {  }
    }
}

impl PoseidonHasher {
    /// Create a new Poseidon hasher.
    pub fn new() -> (r: Self) {
        PoseidonHasher {  }
    }

    /// Hash between one and sixteen field elements with Poseidon.
    pub fn hash(&self, inputs: &[FieldElement]) -> (r: Result<FieldElement, ProverError>)
        ensures
            r is Ok <==> 1 <= inputs@.len() <= 16,
            r is Ok ==> fr_nat(r->Ok_0) == poseidon_of(values_of(inputs@)),
            r is Ok ==> fr_nat(r->Ok_0) < fr_order(),
    {
        poseidon_hash_raw(inputs)
    }

    /// Compute the score commitment: `Poseidon(score, salt, entityHash)`.
    pub fn compute_commitment(
        &self,
        score: u64,
        salt: &FieldElement,
        entity_hash: &FieldElement,
    ) -> (r: Result<FieldElement, ProverError>)
        ensures
            r is Ok,
            fr_nat(r->Ok_0) == commitment_nat(score, fr_nat(*salt), fr_nat(*entity_hash)),
            fr_nat(r->Ok_0) < fr_order(),
    {
        let score_fe = crate::field::fe_from_u64(score);
        let inputs: [FieldElement; 3] = [score_fe, salt.clone(), entity_hash.clone()];
        let r = self.hash(&inputs);
        proof {
            assert(values_of(inputs@) =~= seq![
                score as nat,
                fr_nat(*salt),
                fr_nat(*entity_hash),
            ]);
        }
        r
    }
}

/// The commitment is deterministic: two statements over equal values of
/// score, salt and entity hash commit to the same public value.
pub proof fn lemma_commitment_deterministic(
    score: u64,
    salt_a: FieldElement,
    entity_a: FieldElement,
    salt_b: FieldElement,
    entity_b: FieldElement,
)
    requires
        fr_nat(salt_a) == fr_nat(salt_b),
        fr_nat(entity_a) == fr_nat(entity_b),
    ensures
        commitment_nat(score, fr_nat(salt_a), fr_nat(entity_a)) == commitment_nat(
            score,
            fr_nat(salt_b),
            fr_nat(entity_b),
        ),
{
}

} // verus!
