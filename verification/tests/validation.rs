//! Statement input validation and the tier table.

use zk_prover::error::ProverError;
use zk_prover::types::{RangeInput, ThresholdInput, TierInput, MAX_SCORE};

fn threshold_input(threshold: u64, score: u64) -> ThresholdInput {
    ThresholdInput {
        threshold,
        entity_hash: "123456789".to_string(),
        score,
        salt: "987654321".to_string(),
    }
}

#[test]
fn test_threshold_validation() {
    let valid = ThresholdInput {
        threshold: 8000,
        entity_hash: "123456789".into(),
        score: 8500,
        salt: "987654321".into(),
    };
    assert!(valid.validate().is_ok());

    let invalid_score = ThresholdInput {
        threshold: 8000,
        entity_hash: "123456789".into(),
        score: 15000,
        salt: "987654321".into(),
    };
    assert!(invalid_score.validate().is_err());

    let threshold_not_met = ThresholdInput {
        threshold: 8000,
        entity_hash: "123456789".into(),
        score: 7500,
        salt: "987654321".into(),
    };
    assert!(threshold_not_met.validate().is_err());
}

#[test]
fn test_tier_bounds() {
    assert_eq!(TierInput::tier_bounds(1), (9500, 10000));
    assert_eq!(TierInput::tier_bounds(2), (8500, 9499));
    assert_eq!(TierInput::tier_bounds(3), (7000, 8499));
    assert_eq!(TierInput::tier_bounds(4), (5000, 6999));
    assert_eq!(TierInput::tier_bounds(5), (0, 4999));
}

#[test]
fn threshold_error_kinds() {
    match threshold_input(8000, 15000).validate() {
        Err(ProverError::ScoreOutOfRange { score }) => assert_eq!(score, 15000),
        other => panic!("expected ScoreOutOfRange, got {:?}", other),
    }
    match threshold_input(12000, 9000).validate() {
        Err(ProverError::InvalidInput { field, value, expected }) => {
            assert_eq!(field, "threshold");
            assert_eq!(value, "12000");
            assert_eq!(expected, "0-10000");
        }
        other => panic!("expected InvalidInput, got {:?}", other),
    }
    match threshold_input(8000, 7999).validate() {
        Err(ProverError::ThresholdNotMet { score, threshold }) => {
            assert_eq!(score, 7999);
            assert_eq!(threshold, 8000);
        }
        other => panic!("expected ThresholdNotMet, got {:?}", other),
    }
    assert!(threshold_input(0, 0).validate().is_ok());
    assert!(threshold_input(10000, 10000).validate().is_ok());
}

fn range_input(min_score: u64, max_score: u64, score: u64) -> RangeInput {
    RangeInput {
        min_score,
        max_score,
        entity_hash: "123456789".to_string(),
        score,
        salt: "987654321".to_string(),
    }
}

#[test]
fn range_validation() {
    assert!(range_input(7000, 9000, 8000).validate().is_ok());
    assert!(range_input(0, 10000, 0).validate().is_ok());
    assert!(range_input(5000, 5000, 5000).validate().is_ok());
    match range_input(7000, 9000, 10001).validate() {
        Err(ProverError::ScoreOutOfRange { score }) => assert_eq!(score, 10001),
        other => panic!("expected ScoreOutOfRange, got {:?}", other),
    }
    match range_input(9000, 7000, 8000).validate() {
        Err(ProverError::InvalidInput { field, value, expected }) => {
            assert_eq!(field, "min_score");
            assert_eq!(value, "9000");
            assert_eq!(expected, "<= max_score (7000)");
        }
        other => panic!("expected InvalidInput, got {:?}", other),
    }
    match range_input(7000, 9000, 6999).validate() {
        Err(ProverError::InvalidInput { field, value, expected }) => {
            assert_eq!(field, "score");
            assert_eq!(value, "6999");
            assert_eq!(expected, "[7000, 9000]");
        }
        other => panic!("expected InvalidInput, got {:?}", other),
    }
    assert!(range_input(7000, 9000, 9001).validate().is_err());
}

fn tier_input(target_tier: u8, score: u64) -> TierInput {
    TierInput {
        target_tier,
        entity_hash: "123456789".to_string(),
        score,
        salt: "987654321".to_string(),
    }
}

#[test]
fn tier_validation() {
    // Every score in a tier's interval validates against that tier and
    // fails against every other tier.
    let samples = [(1u8, 9500u64), (1, 10000), (2, 8500), (2, 9499), (3, 7000), (3, 8499),
        (4, 5000), (4, 6999), (5, 0), (5, 4999)];
    for (tier, score) in samples {
        assert!(tier_input(tier, score).validate().is_ok());
        for other in 1u8..=5 {
            if other != tier {
                assert!(tier_input(other, score).validate().is_err());
            }
        }
    }
    match tier_input(0, 5000).validate() {
        Err(ProverError::InvalidTier { tier }) => assert_eq!(tier, 0),
        other => panic!("expected InvalidTier, got {:?}", other),
    }
    match tier_input(6, 5000).validate() {
        Err(ProverError::InvalidTier { tier }) => assert_eq!(tier, 6),
        other => panic!("expected InvalidTier, got {:?}", other),
    }
    match tier_input(3, 10001).validate() {
        Err(ProverError::ScoreOutOfRange { score }) => assert_eq!(score, 10001),
        other => panic!("expected ScoreOutOfRange, got {:?}", other),
    }
    // A tier statement with a score outside the tier's interval fails
    // before any circuit work, naming the score.
    match tier_input(3, 6999).validate() {
        Err(ProverError::InvalidInput { field, value, expected }) => {
            assert_eq!(field, "score");
            assert_eq!(value, "6999");
            assert_eq!(expected, "tier 3 range [7000, 8499]");
        }
        other => panic!("expected InvalidInput, got {:?}", other),
    }
    assert!(tier_input(3, 7999).validate().is_ok());
    assert_eq!(MAX_SCORE, 10000);
}

#[test]
fn threshold_signal_map() {
    let input = threshold_input(8000, 8500);
    let signals = input.to_circuit_input();
    assert_eq!(signals.len(), 4);
    assert_eq!(signals[0].0, "threshold");
    assert_eq!(signals[0].1, vec!["8000".to_string()]);
    assert_eq!(signals[1].0, "entityHash");
    assert_eq!(signals[1].1, vec!["123456789".to_string()]);
    assert_eq!(signals[2].0, "score");
    assert_eq!(signals[2].1, vec!["8500".to_string()]);
    assert_eq!(signals[3].0, "salt");
    assert_eq!(signals[3].1, vec!["987654321".to_string()]);
}

#[test]
fn range_signal_map() {
    let input = range_input(7000, 9000, 8000);
    let signals = input.to_circuit_input();
    assert_eq!(signals.len(), 5);
    assert_eq!(signals[0].0, "minScore");
    assert_eq!(signals[0].1, vec!["7000".to_string()]);
    assert_eq!(signals[1].0, "maxScore");
    assert_eq!(signals[1].1, vec!["9000".to_string()]);
    assert_eq!(signals[2].0, "entityHash");
    assert_eq!(signals[3].0, "score");
    assert_eq!(signals[4].0, "salt");
}

#[test]
fn tier_signal_map() {
    let input = tier_input(3, 7999);
    let signals = input.to_circuit_input();
    assert_eq!(signals.len(), 4);
    assert_eq!(signals[0].0, "targetTier");
    assert_eq!(signals[0].1, vec!["3".to_string()]);
    assert_eq!(signals[1].0, "entityHash");
    assert_eq!(signals[2].0, "score");
    assert_eq!(signals[3].0, "salt");
}

#[test]
fn signal_map_zero_fallback() {
    // A decimal-string field that does not parse contributes zero to the
    // signal map rather than erroring: a documented quirk.
    let input = ThresholdInput {
        threshold: 8000,
        entity_hash: "not a number".to_string(),
        score: 8500,
        salt: "".to_string(),
    };
    let signals = input.to_circuit_input();
    assert_eq!(signals[1].1, vec!["0".to_string()]);
    assert_eq!(signals[3].1, vec!["0".to_string()]);
}
