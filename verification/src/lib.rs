//! Zero-knowledge compliance proofs.
//!
//! An entity holds a private compliance score in `[0, 10000]` and proves
//! facts about it — that it reaches a threshold, lies in a range, or
//! belongs to a tier — without revealing the score. Each statement binds
//! the proof to an entity identifier through a hiding commitment over the
//! BN254 scalar field.

pub mod error;
pub mod field;
pub mod tiers;
pub mod poseidon;
pub mod r1cs;
pub mod circuits;
pub mod proofs;
pub mod prover;
pub mod verification;
pub mod types;

pub use error::ProverError;
pub use field::{string_to_fr, fr_to_string, FieldElement};
pub use proofs::{Proof, ProofWithPublicInputs};
pub use verification::VerificationKey;
pub use types::{RangeInput, ThresholdInput, TierInput};
