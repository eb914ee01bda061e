use vstd::prelude::*;

verus! {

/// Errors that can occur during input validation, proof generation
/// and verification.
#[derive(Debug)]
pub enum ProverError {
    /// A circuit artifact file is missing at the given path.
    CircuitNotFound { path: String },
    /// An input field holds a value outside what the statement allows.
    InvalidInput { field: String, value: String, expected: String },
    /// Proof generation failed inside the proving backend.
    ProofGenerationFailed { reason: String },
    /// The verification backend failed (a malformed key, not a false proof).
    VerificationFailed { reason: String },
    /// A serialized proof could not be decoded.
    InvalidProofFormat { reason: String },
    /// A serialization step failed.
    Serialization { reason: String },
    /// An I/O step failed.
    Io { reason: String },
    /// Witness calculation failed.
    WitnessError { reason: String },
    /// Key setup failed.
    SetupError { reason: String },
    /// The private score lies outside [0, 10000].
    ScoreOutOfRange { score: u64 },
    /// The private score does not reach the public threshold.
    ThresholdNotMet { score: u64, threshold: u64 },
    /// The target tier is not one of 1 through 5.
    InvalidTier { tier: u8 },
    /// The underlying field or curve library reported a fault.
    ArkError(String),
}

} // verus!
