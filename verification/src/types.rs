//! Statement inputs: the three typed, validated records that a proof
//! request starts from.

use vstd::prelude::*;

use crate::error::ProverError;
use crate::field::{
    all_dec_digits, dec_str_of, is_decimal_string, string_new, u64_to_string, push_char,
};
use crate::tiers;

verus! {

/// Maximum valid score (1.0000 in fixed-point).
pub const MAX_SCORE: u64 = 10000;

/// The value a decimal-string signal contributes to a signal map: the
/// number it spells, or zero when it is not a plain string of digits.
pub open spec fn signal_string(s: Seq<char>) -> Seq<char> {
    if s.len() > 0 && all_dec_digits(s) {
        s
    } else {
        seq!['0']
    }
}

/// The signal value of a decimal-string field; a string that does not
/// parse falls back to zero rather than erroring.
fn signal_value(s: &String) -> (r: String)
    ensures
        r@ == signal_string(s@),
{
    if is_decimal_string(s.as_str()) {
        String::from_str(s.as_str())
    } else {
        let mut z = string_new();
        push_char(&mut z, '0');
        assert(z@ =~= seq!['0']);
        z
    }
}

/// Input for a compliance threshold proof.
///
/// Proves: `score >= threshold`.
#[derive(Debug)]
pub struct ThresholdInput {
    /// Minimum required score (0-10000, public).
    pub threshold: u64,
    /// Hash of the entity identifier, as a decimal string (public).
    pub entity_hash: String,
    /// Actual compliance score (private).
    pub score: u64,
    /// Random salt for the commitment, as a decimal string (private).
    pub salt: String,
}

impl ThresholdInput {
    /// A threshold statement is well-formed when both values are scores
    /// and the private score reaches the threshold.
    pub open spec fn is_valid(&self) -> bool {
        &&& self.score <= MAX_SCORE
        &&& self.threshold <= MAX_SCORE
        &&& self.threshold <= self.score
    }

    /// Validate the input values, reporting the first offending field.
    pub fn validate(&self) -> (r: Result<(), ProverError>)
        ensures
            r is Ok <==> self.is_valid(),
            self.score > MAX_SCORE ==> (r matches Err(ProverError::ScoreOutOfRange { score })
                && score == self.score),
            self.score <= MAX_SCORE && self.threshold > MAX_SCORE ==> (r matches Err(
                ProverError::InvalidInput { field, value, expected },
            ) && field@ == "threshold"@ && value@ == dec_str_of(self.threshold as nat)
                && expected@ == "0-10000"@),
            self.score <= MAX_SCORE && self.threshold <= MAX_SCORE && self.score < self.threshold
                ==> (r matches Err(ProverError::ThresholdNotMet { score, threshold })
                && score == self.score && threshold == self.threshold),
    {
        if self.score > MAX_SCORE {
            return Err(ProverError::ScoreOutOfRange { score: self.score });
        }
        if self.threshold > MAX_SCORE {
            return Err(ProverError::InvalidInput {
                field: String::from_str("threshold"),
                value: u64_to_string(self.threshold),
                expected: String::from_str("0-10000"),
            });
        }
        if self.score < self.threshold {
            return Err(ProverError::ThresholdNotMet {
                score: self.score,
                threshold: self.threshold,
            });
        }
        Ok(())
    }

    /// Convert to the circuit input format: the ordered signal map the
    /// witness toolchain expects, every value a decimal string.
    pub fn to_circuit_input(&self) -> (r: Vec<(String, Vec<String>)>)
        ensures
            r@.len() == 4,
            r@[0].0@ == "threshold"@ && r@[0].1@.len() == 1 && r@[0].1[0]@ == dec_str_of(
                self.threshold as nat,
            ),
            r@[1].0@ == "entityHash"@ && r@[1].1@.len() == 1 && r@[1].1[0]@ == signal_string(
                self.entity_hash@,
            ),
            r@[2].0@ == "score"@ && r@[2].1@.len() == 1 && r@[2].1[0]@ == dec_str_of(
                self.score as nat,
            ),
            r@[3].0@ == "salt"@ && r@[3].1@.len() == 1 && r@[3].1[0]@ == signal_string(self.salt@),
    {
        let mut r: Vec<(String, Vec<String>)> = Vec::new();
        r.push((String::from_str("threshold"), vec![u64_to_string(self.threshold)]));
        r.push((String::from_str("entityHash"), vec![signal_value(&self.entity_hash)]));
        r.push((String::from_str("score"), vec![u64_to_string(self.score)]));
        r.push((String::from_str("salt"), vec![signal_value(&self.salt)]));
        r
    }
}

/// Input for a compliance range proof.
///
/// Proves: `min_score <= score <= max_score`.
#[derive(Debug)]
pub struct RangeInput {
    /// Minimum of the range (inclusive, public).
    pub min_score: u64,
    /// Maximum of the range (inclusive, public).
    pub max_score: u64,
    /// Hash of the entity identifier, as a decimal string (public).
    pub entity_hash: String,
    /// Actual compliance score (private).
    pub score: u64,
    /// Random salt for the commitment, as a decimal string (private).
    pub salt: String,
}

impl RangeInput {
    /// A range statement is well-formed when the range is ordered, caps at
    /// the maximum score, and holds the private score.
    pub open spec fn is_valid(&self) -> bool {
        &&& self.score <= MAX_SCORE
        &&& self.min_score <= self.max_score
        &&& self.min_score <= self.score
        &&& self.score <= self.max_score
    }

    /// Validate the input values, reporting the first offending field.
    pub fn validate(&self) -> (r: Result<(), ProverError>)
        ensures
            r is Ok <==> self.is_valid(),
            self.score > MAX_SCORE ==> (r matches Err(ProverError::ScoreOutOfRange { score })
                && score == self.score),
            self.score <= MAX_SCORE && self.min_score > self.max_score ==> (r matches Err(
                ProverError::InvalidInput { field, value, expected },
            ) && field@ == "min_score"@ && value@ == dec_str_of(self.min_score as nat)
                && expected@ == "<= max_score ("@ + dec_str_of(self.max_score as nat) + ")"@),
            self.score <= MAX_SCORE && self.min_score <= self.max_score && !(self.min_score
                <= self.score <= self.max_score) ==> (r matches Err(
                ProverError::InvalidInput { field, value, expected },
            ) && field@ == "score"@ && value@ == dec_str_of(self.score as nat) && expected@ == "["@
                + dec_str_of(self.min_score as nat) + ", "@ + dec_str_of(self.max_score as nat)
                + "]"@),
    {
        if self.score > MAX_SCORE {
            return Err(ProverError::ScoreOutOfRange { score: self.score });
        }
        if self.min_score > self.max_score {
            let mut expected = String::from_str("<= max_score (");
            expected.append(u64_to_string(self.max_score).as_str());
            expected.append(")");
            return Err(ProverError::InvalidInput {
                field: String::from_str("min_score"),
                value: u64_to_string(self.min_score),
                expected,
            });
        }
        if self.score < self.min_score || self.score > self.max_score {
            let mut expected = String::from_str("[");
            expected.append(u64_to_string(self.min_score).as_str());
            expected.append(", ");
            expected.append(u64_to_string(self.max_score).as_str());
            expected.append("]");
            return Err(ProverError::InvalidInput {
                field: String::from_str("score"),
                value: u64_to_string(self.score),
                expected,
            });
        }
        Ok(())
    }

    /// Convert to the circuit input format: the ordered signal map the
    /// witness toolchain expects, every value a decimal string.
    pub fn to_circuit_input(&self) -> (r: Vec<(String, Vec<String>)>)
        ensures
            r@.len() == 5,
            r@[0].0@ == "minScore"@ && r@[0].1@.len() == 1 && r@[0].1[0]@ == dec_str_of(
                self.min_score as nat,
            ),
            r@[1].0@ == "maxScore"@ && r@[1].1@.len() == 1 && r@[1].1[0]@ == dec_str_of(
                self.max_score as nat,
            ),
            r@[2].0@ == "entityHash"@ && r@[2].1@.len() == 1 && r@[2].1[0]@ == signal_string(
                self.entity_hash@,
            ),
            r@[3].0@ == "score"@ && r@[3].1@.len() == 1 && r@[3].1[0]@ == dec_str_of(
                self.score as nat,
            ),
            r@[4].0@ == "salt"@ && r@[4].1@.len() == 1 && r@[4].1[0]@ == signal_string(self.salt@),
    {
        let mut r: Vec<(String, Vec<String>)> = Vec::new();
        r.push((String::from_str("minScore"), vec![u64_to_string(self.min_score)]));
        r.push((String::from_str("maxScore"), vec![u64_to_string(self.max_score)]));
        r.push((String::from_str("entityHash"), vec![signal_value(&self.entity_hash)]));
        r.push((String::from_str("score"), vec![u64_to_string(self.score)]));
        r.push((String::from_str("salt"), vec![signal_value(&self.salt)]));
        r
    }
}

/// Input for a tier membership proof.
///
/// Proves: the entity's score lies in the interval of the target tier.
#[derive(Debug)]
pub struct TierInput {
    /// Target tier (1-5, public).
    pub target_tier: u8,
    /// Hash of the entity identifier, as a decimal string (public).
    pub entity_hash: String,
    /// Actual compliance score (private).
    pub score: u64,
    /// Random salt for the commitment, as a decimal string (private).
    pub salt: String,
}

/// The closed score interval bound to a tier by the fixed tier table;
/// tiers outside 1 through 5 get the empty marker interval (0, 0).
pub open spec fn spec_tier_bounds(tier: u8) -> (u64, u64) {
    if tier == 1 {
        (tiers::TIER_1_MIN, MAX_SCORE)
    } else if tier == 2 {
        (tiers::TIER_2_MIN, (tiers::TIER_1_MIN - 1) as u64)
    } else if tier == 3 {
        (tiers::TIER_3_MIN, (tiers::TIER_2_MIN - 1) as u64)
    } else if tier == 4 {
        (tiers::TIER_4_MIN, (tiers::TIER_3_MIN - 1) as u64)
    } else if tier == 5 {
        (tiers::TIER_5_MIN, (tiers::TIER_4_MIN - 1) as u64)
    } else {
        (0, 0)
    }
}

impl TierInput {
    /// A tier statement is well-formed when the tier is one of 1 through 5,
    /// the score is a score, and the score lies in the tier's interval.
    pub open spec fn is_valid(&self) -> bool {
        &&& 1 <= self.target_tier <= 5
        &&& self.score <= MAX_SCORE
        &&& spec_tier_bounds(self.target_tier).0 <= self.score
        &&& self.score <= spec_tier_bounds(self.target_tier).1
    }

    /// Validate the input values, reporting the first offending field.
    pub fn validate(&self) -> (r: Result<(), ProverError>)
        ensures
            r is Ok <==> self.is_valid(),
            !(1 <= self.target_tier <= 5) ==> (r matches Err(ProverError::InvalidTier { tier })
                && tier == self.target_tier),
            1 <= self.target_tier <= 5 && self.score > MAX_SCORE ==> (r matches Err(
                ProverError::ScoreOutOfRange { score },
            ) && score == self.score),
            1 <= self.target_tier <= 5 && self.score <= MAX_SCORE && !(spec_tier_bounds(
                self.target_tier,
            ).0 <= self.score <= spec_tier_bounds(self.target_tier).1) ==> (r matches Err(
                ProverError::InvalidInput { field, value, expected },
            ) && field@ == "score"@ && value@ == dec_str_of(self.score as nat) && expected@
                == "tier "@ + dec_str_of(self.target_tier as nat) + " range ["@ + dec_str_of(
                spec_tier_bounds(self.target_tier).0 as nat,
            ) + ", "@ + dec_str_of(spec_tier_bounds(self.target_tier).1 as nat) + "]"@),
    {
        if self.target_tier < 1 || self.target_tier > 5 {
            return Err(ProverError::InvalidTier { tier: self.target_tier });
        }
        if self.score > MAX_SCORE {
            return Err(ProverError::ScoreOutOfRange { score: self.score });
        }
        let (min, max) = Self::tier_bounds(self.target_tier);
        if self.score < min || self.score > max {
            let mut expected = String::from_str("tier ");
            expected.append(u64_to_string(self.target_tier as u64).as_str());
            expected.append(" range [");
            expected.append(u64_to_string(min).as_str());
            expected.append(", ");
            expected.append(u64_to_string(max).as_str());
            expected.append("]");
            return Err(ProverError::InvalidInput {
                field: String::from_str("score"),
                value: u64_to_string(self.score),
                expected,
            });
        }
        Ok(())
    }

    /// The tier boundaries from the fixed tier table.
    pub fn tier_bounds(tier: u8) -> (r: (u64, u64))
        ensures
            r == spec_tier_bounds(tier),
    {
        if tier == 1 {
            (tiers::TIER_1_MIN, MAX_SCORE)
        } else if tier == 2 {
            (tiers::TIER_2_MIN, tiers::TIER_1_MIN - 1)
        } else if tier == 3 {
            (tiers::TIER_3_MIN, tiers::TIER_2_MIN - 1)
        } else if tier == 4 {
            (tiers::TIER_4_MIN, tiers::TIER_3_MIN - 1)
        } else if tier == 5 {
            (tiers::TIER_5_MIN, tiers::TIER_4_MIN - 1)
        } else {
            (0, 0)
        }
    }

    /// Convert to the circuit input format: the ordered signal map the
    /// witness toolchain expects, every value a decimal string.
    pub fn to_circuit_input(&self) -> (r: Vec<(String, Vec<String>)>)
        ensures
            r@.len() == 4,
            r@[0].0@ == "targetTier"@ && r@[0].1@.len() == 1 && r@[0].1[0]@ == dec_str_of(
                self.target_tier as nat,
            ),
            r@[1].0@ == "entityHash"@ && r@[1].1@.len() == 1 && r@[1].1[0]@ == signal_string(
                self.entity_hash@,
            ),
            r@[2].0@ == "score"@ && r@[2].1@.len() == 1 && r@[2].1[0]@ == dec_str_of(
                self.score as nat,
            ),
            r@[3].0@ == "salt"@ && r@[3].1@.len() == 1 && r@[3].1[0]@ == signal_string(self.salt@),
    {
        let mut r: Vec<(String, Vec<String>)> = Vec::new();
        r.push((String::from_str("targetTier"), vec![u64_to_string(self.target_tier as u64)]));
        r.push((String::from_str("entityHash"), vec![signal_value(&self.entity_hash)]));
        r.push((String::from_str("score"), vec![u64_to_string(self.score)]));
        r.push((String::from_str("salt"), vec![signal_value(&self.salt)]));
        r
    }
}

/// Every score sits in exactly one tier: a score inside tier `t`'s
/// interval lies outside the interval of every other tier.
pub proof fn lemma_tiers_disjoint(t: u8, u: u8, score: u64)
    requires
        1 <= t <= 5,
        1 <= u <= 5,
        t != u,
        spec_tier_bounds(t).0 <= score <= spec_tier_bounds(t).1,
    ensures
        !(spec_tier_bounds(u).0 <= score <= spec_tier_bounds(u).1),
{
}

/// A score inside tier `t`'s interval validates against target tier `t`
/// and fails validation against every other tier.
pub proof fn lemma_tier_membership_exclusive(input: TierInput, other: TierInput)
    requires
        1 <= input.target_tier <= 5,
        input.score <= MAX_SCORE,
        spec_tier_bounds(input.target_tier).0 <= input.score,
        input.score <= spec_tier_bounds(input.target_tier).1,
        other.score == input.score,
        1 <= other.target_tier <= 5,
        other.target_tier != input.target_tier,
    ensures
        input.is_valid(),
        !other.is_valid(),
{
    lemma_tiers_disjoint(input.target_tier, other.target_tier, input.score);
}

} // verus!
