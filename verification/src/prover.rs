//! Circuit identifiers and the key-store layout the proving side works
//! against. Proving itself reads circuit artifacts from disk and runs the
//! witness toolchain, so it lives with the embedding program; this module
//! holds the parts of it that are pure: naming the circuits and the paths
//! where their artifacts must stand.

use vstd::prelude::*;

use crate::field::string_new;

verus! {

/// Circuit identifiers.
pub enum Circuit {
    /// Compliance threshold proof.
    Threshold,
    /// Range proof.
    Range,
    /// Tier membership proof.
    Tier,
}

/// The fixed file-system name of each circuit kind.
pub open spec fn spec_file_name(c: Circuit) -> Seq<char> {
    match c {
        Circuit::Threshold => "compliance_threshold"@,
        Circuit::Range => "range_proof"@,
        Circuit::Tier => "tier_membership"@,
    }
}

impl Circuit {
    /// Get the circuit's file name.
    pub fn file_name(&self) -> (r: &str)
        ensures
            r@ == spec_file_name(*self),
    {
        match self {
            Self::Threshold => "compliance_threshold",
            Self::Range => "range_proof",
            Self::Tier => "tier_membership",
        }
    }
}

/// The path of a circuit's proving key inside the build directory.
pub fn proving_key_path(build_dir: &str, circuit: &Circuit) -> (r: String)
    ensures
        r@ == build_dir@ + "/"@ + spec_file_name(*circuit) + "/proving_key.zkey"@,
{
    let mut p = string_new();
    p.append(build_dir);
    p.append("/");
    p.append(circuit.file_name());
    p.append("/proving_key.zkey");
    p
}

/// The path of a circuit's verification key inside the build directory.
pub fn verification_key_path(build_dir: &str, circuit: &Circuit) -> (r: String)
    ensures
        r@ == build_dir@ + "/"@ + spec_file_name(*circuit) + "/verification_key.json"@,
{
    let mut p = string_new();
    p.append(build_dir);
    p.append("/");
    p.append(circuit.file_name());
    p.append("/verification_key.json");
    p
}

/// The path of a circuit's witness-calculator module inside the build
/// directory.
pub fn wasm_path(build_dir: &str, circuit: &Circuit) -> (r: String)
    ensures
        r@ == build_dir@ + "/"@ + spec_file_name(*circuit) + "/"@ + spec_file_name(*circuit)
            + "_js/"@ + spec_file_name(*circuit) + ".wasm"@,
{
    let mut p = string_new();
    p.append(build_dir);
    p.append("/");
    p.append(circuit.file_name());
    p.append("/");
    p.append(circuit.file_name());
    p.append("_js/");
    p.append(circuit.file_name());
    p.append(".wasm");
    p
}

/// The path of a circuit's constraint description inside the build
/// directory.
pub fn r1cs_path(build_dir: &str, circuit: &Circuit) -> (r: String)
    ensures
        r@ == build_dir@ + "/"@ + spec_file_name(*circuit) + "/"@ + spec_file_name(*circuit)
            + ".r1cs"@,
{
    let mut p = string_new();
    p.append(build_dir);
    p.append("/");
    p.append(circuit.file_name());
    p.append("/");
    p.append(circuit.file_name());
    p.append(".r1cs");
    p
}

} // verus!
