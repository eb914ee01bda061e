//! Constraint-system synthesis: valid statements are accepted, forced
//! inconsistent witnesses are rejected.

use zk_prover::circuits::{RangeCircuit, ThresholdCircuit, TierCircuit};
use zk_prover::field::fe_from_u64;

#[test]
fn test_threshold_circuit_satisfiable() {
    let circuit = ThresholdCircuit::new(8000, fe_from_u64(123456789), 8500, fe_from_u64(987654321));

    let cs = circuit.generate_constraints().unwrap();

    assert!(cs.is_satisfied());
}

#[test]
fn test_range_circuit_satisfiable() {
    let circuit =
        RangeCircuit::new(7000, 9000, fe_from_u64(123456789), 8000, fe_from_u64(987654321));

    let cs = circuit.generate_constraints().unwrap();

    assert!(cs.is_satisfied());
}

#[test]
fn tier_circuit_satisfiable() {
    let circuit = TierCircuit::new(3, fe_from_u64(123456789), 7999, fe_from_u64(987654321));
    let cs = circuit.generate_constraints().unwrap();
    assert!(cs.is_satisfied());
}

#[test]
fn threshold_circuit_rejects_forced_witness() {
    // Bypassing validation and forcing score = threshold - 1 yields a
    // constraint system its own witness does not satisfy.
    let circuit = ThresholdCircuit::new(8000, fe_from_u64(123456789), 7999, fe_from_u64(987654321));
    let cs = circuit.generate_constraints().unwrap();
    assert!(!cs.is_satisfied());

    // A score above the maximum is rejected by the upper range gadget.
    let circuit = ThresholdCircuit::new(8000, fe_from_u64(123456789), 10001, fe_from_u64(4));
    let cs = circuit.generate_constraints().unwrap();
    assert!(!cs.is_satisfied());
}

#[test]
fn range_circuit_rejects_forced_witness() {
    let circuit =
        RangeCircuit::new(7000, 9000, fe_from_u64(123456789), 6999, fe_from_u64(987654321));
    let cs = circuit.generate_constraints().unwrap();
    assert!(!cs.is_satisfied());

    let circuit =
        RangeCircuit::new(7000, 9000, fe_from_u64(123456789), 9001, fe_from_u64(987654321));
    let cs = circuit.generate_constraints().unwrap();
    assert!(!cs.is_satisfied());

    // An inverted range is rejected no matter the score.
    let circuit =
        RangeCircuit::new(9000, 7000, fe_from_u64(123456789), 8000, fe_from_u64(987654321));
    let cs = circuit.generate_constraints().unwrap();
    assert!(!cs.is_satisfied());
}

#[test]
fn tier_circuit_rejects_forced_witness() {
    // Score inside another tier's interval.
    let circuit = TierCircuit::new(3, fe_from_u64(123456789), 6999, fe_from_u64(987654321));
    let cs = circuit.generate_constraints().unwrap();
    assert!(!cs.is_satisfied());

    // Tier outside the table.
    let circuit = TierCircuit::new(6, fe_from_u64(123456789), 5000, fe_from_u64(987654321));
    let cs = circuit.generate_constraints().unwrap();
    assert!(!cs.is_satisfied());
}

#[test]
fn synthesis_is_repeatable() {
    // Synthesis is a pure function of the statement input: two runs over
    // the same input emit systems of the same shape that agree on
    // acceptance.
    let a = ThresholdCircuit::new(8000, fe_from_u64(5), 8500, fe_from_u64(7))
        .generate_constraints()
        .unwrap();
    let b = ThresholdCircuit::new(8000, fe_from_u64(5), 8500, fe_from_u64(7))
        .generate_constraints()
        .unwrap();
    assert_eq!(a.constraints.len(), b.constraints.len());
    assert_eq!(a.assignment.len(), b.assignment.len());
    assert_eq!(a.num_public, b.num_public);
    assert_eq!(a.is_satisfied(), b.is_satisfied());
}
