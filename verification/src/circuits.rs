//! The three compliance circuits: threshold, range and tier membership.
//!
//! Each circuit allocates its public inputs first, then the private
//! witnesses, then enforces the bit-decomposition range gadgets (and, for
//! the tier circuit, the boolean tier selector), and exposes the Poseidon
//! commitment as the last public input. Synthesis is a pure function of
//! the statement input: running it twice over the same input emits the
//! same constraint system.

use vstd::prelude::*;
use vstd::arithmetic::div_mod::{
    lemma_add_mod_noop_right, lemma_fundamental_div_mod, lemma_mod_add_multiples_vanish,
    lemma_mod_multiples_basic, lemma_mod_self_0, lemma_small_mod,
};

use crate::error::ProverError;
use crate::field::{fe_from_u64, fe_neg, fe_sub, fr_nat, fr_order, FieldElement};
use crate::poseidon::{commitment_nat, PoseidonHasher};
use crate::r1cs::{
    bool_obs, constraints_obs, lc_obs, lc_val, lc_zero_obs, lemma_lc_bind2, lemma_lc_const_diff3,
    lemma_lc_diff3, lemma_lc_pos1_negs5, lemma_lc_wsum5_neg1, low14_bits, nonneg_obs, term_obs,
    Coeff, ConstraintSystem, Term,
};
use crate::tiers;
use crate::types::spec_tier_bounds;
use crate::types::TierInput;
use crate::types::MAX_SCORE;

verus! {

/// A value produced by field subtraction vanishes in the linear
/// constraint that defines it: `a - b - ((a - b) mod p)` is a multiple of
/// the field order.
proof fn lemma_diff_linear_zero(a: int, b: int, d: int)
    requires
        d == (a + fr_order() - b) % (fr_order() as int),
    ensures
        (a - b - d) % (fr_order() as int) == 0,
{
    let p = fr_order() as int;
    let x = a - b;
    lemma_mod_add_multiples_vanish(x, p);
    assert(d == x % p);
    lemma_fundamental_div_mod(x, p);
    lemma_mod_multiples_basic(x / p, p);
    assert(x - x % p == (x / p) * p);
}

/// What field subtraction of two machine integers yields: the plain
/// difference when it is nonnegative, and a value within a word of the
/// field order — far above the range gadget's bound — when it wraps.
proof fn lemma_field_diff_value(a: u64, b: u64, d: nat)
    requires
        d as int == (a as int + fr_order() - b as int) % (fr_order() as int),
    ensures
        (d < 16384) <==> (a >= b && a - b < 16384),
{
    let p = fr_order() as int;
    let x = a as int - b as int;
    lemma_mod_add_multiples_vanish(x, p);
    assert(d as int == x % p);
    if a >= b {
        lemma_small_mod((a - b) as nat, fr_order());
        assert(d == (a - b) as nat);
    } else {
        lemma_small_mod((x + p) as nat, fr_order());
        assert(d as int == x + p);
        assert(d >= 16384);
    }
}

/// The constraint binding a public variable to the commitment constant is
/// satisfied by the value it was allocated with.
proof fn lemma_commit_binding(c: nat, nc: nat)
    requires
        c < fr_order(),
        nc as int == (fr_order() - c) % (fr_order() as int),
    ensures
        (c as int + nc as int) % (fr_order() as int) == 0,
{
    let p = fr_order() as int;
    lemma_mod_add_multiples_vanish(-(c as int), p);
    assert(nc as int == (-(c as int)) % p);
    lemma_add_mod_noop_right(c as int, -(c as int), p);
    lemma_mod_self_0(p);
    assert((c as int + nc as int) % p == (0int) % p);
    assert((0int) % p == 0);
}

/// The canonical value `a - b` takes in the scalar field.
pub open spec fn fr_sub_val(a: nat, b: nat) -> nat {
    ((a + fr_order() - b) % (fr_order() as int)) as nat
}

/// The canonical value the negation of `x` takes in the scalar field.
pub open spec fn fr_neg_val(x: nat) -> int {
    (fr_order() - x) % (fr_order() as int)
}

/// Native compliance threshold circuit.
///
/// Proves: `score >= threshold`, with the score capped at `MAX_SCORE`.
pub struct ThresholdCircuit {
    /// Public: minimum required score.
    pub threshold: u64,
    /// Public: hash of the entity identifier.
    pub entity_hash: FieldElement,
    /// Private: actual compliance score.
    pub score: u64,
    /// Private: random salt for the commitment.
    pub salt: FieldElement,
}

/// Every variable value of the threshold circuit's synthesized system, in
/// allocation order: the constant one, the three public inputs, the score
/// and salt witnesses, then each range gadget's difference and its
/// fourteen bits.
pub open spec fn threshold_witness_values(c: ThresholdCircuit) -> Seq<nat> {
    let commit = commitment_nat(c.score, fr_nat(c.salt), fr_nat(c.entity_hash));
    let d = fr_sub_val(c.score as nat, c.threshold as nat);
    let u = fr_sub_val(MAX_SCORE as nat, c.score as nat);
    seq![
        1nat,
        c.threshold as nat,
        fr_nat(c.entity_hash),
        commit,
        c.score as nat,
        fr_nat(c.salt),
        d,
    ] + low14_bits(d) + seq![u] + low14_bits(u)
}

/// Every constraint of the threshold circuit's synthesized system,
/// observed, in emission order: the two difference bindings each followed
/// by a range gadget, then the commitment binding.
pub open spec fn threshold_constraints_obs(c: ThresholdCircuit) -> Seq<
    (Seq<(int, int)>, Seq<(int, int)>, Seq<(int, int)>),
> {
    let commit = commitment_nat(c.score, fr_nat(c.salt), fr_nat(c.entity_hash));
    seq![lc_zero_obs(seq![(1int, 4int), (-1int, 1int), (-1int, 6int)])] + nonneg_obs(7, 6) + seq![
        lc_zero_obs(seq![(MAX_SCORE as int, 0int), (-1int, 4int), (-1int, 21int)]),
    ] + nonneg_obs(22, 21) + seq![lc_zero_obs(seq![(1int, 3int), (fr_neg_val(commit), 0int)])]
}

impl ThresholdCircuit {
    /// Create a new threshold circuit.
    pub fn new(threshold: u64, entity_hash: FieldElement, score: u64, salt: FieldElement) -> (r:
        Self)
        ensures
            r.threshold == threshold,
            r.entity_hash == entity_hash,
            r.score == score,
            r.salt == salt,
    {
        Self { threshold, entity_hash, score, salt }
    }

    /// Emit the circuit's constraints together with the witness chosen
    /// from this statement: the public inputs are the threshold, the
    /// entity hash and the commitment, and the system accepts exactly
    /// when the private score reaches the threshold without passing the
    /// maximum score.
    #[verifier::rlimit(100)]
    pub fn generate_constraints(&self) -> (r: Result<ConstraintSystem, ProverError>)
        ensures
            r is Ok,
            r->Ok_0.wf(),
            r->Ok_0.num_public == 3,
            r->Ok_0.public_values() =~= seq![
                self.threshold as nat,
                fr_nat(self.entity_hash),
                commitment_nat(self.score, fr_nat(self.salt), fr_nat(self.entity_hash)),
            ],
            r->Ok_0.spec_satisfied() <==> (self.threshold <= self.score && self.score
                <= MAX_SCORE),
            r->Ok_0.values() =~= threshold_witness_values(*self),
            constraints_obs(r->Ok_0) =~= threshold_constraints_obs(*self),
    {
        let mut cs = ConstraintSystem::new();

        // Public inputs.
        let threshold_fe = fe_from_u64(self.threshold);
        let t_var = cs.alloc_public(threshold_fe.clone());
        let _e_var = cs.alloc_public(self.entity_hash.clone());
        let hasher = PoseidonHasher::new();
        let commitment = match hasher.compute_commitment(self.score, &self.salt, &self.entity_hash) {
            Ok(c) => c,
            Err(e) => {
                proof {
                    assert(false);
                }
                return Err(e);
            },
        };
        let c_var = cs.alloc_public(commitment.clone());

        // Private witnesses.
        let score_fe = fe_from_u64(self.score);
        let s_var = cs.alloc_witness(score_fe.clone());
        let _salt_var = cs.alloc_witness(self.salt.clone());

        // score - threshold, decomposed to prove it nonnegative.
        let diff = fe_sub(&score_fe, &threshold_fe);
        let d_var = cs.alloc_witness(diff.clone());
        let mut terms: Vec<Term> = Vec::new();
        terms.push(Term { coeff: Coeff::Pos(1), var: s_var });
        terms.push(Term { coeff: Coeff::Neg(1), var: t_var });
        terms.push(Term { coeff: Coeff::Neg(1), var: d_var });
        proof {
            let vals = cs.values();
            lemma_lc_diff3(s_var, t_var, d_var, vals);
            assert(terms@ == Seq::<Term>::empty().push(Term { coeff: Coeff::Pos(1), var: s_var })
                .push(Term { coeff: Coeff::Neg(1), var: t_var }).push(
                Term { coeff: Coeff::Neg(1), var: d_var },
            ));
            assert(vals[s_var as int] == self.score as nat);
            assert(vals[t_var as int] == self.threshold as nat);
            assert(vals[d_var as int] == fr_nat(diff));
            assert(lc_val(terms@, vals) == self.score - self.threshold - fr_nat(diff));
            lemma_diff_linear_zero(self.score as int, self.threshold as int, fr_nat(diff) as int);
        }
        let ghost lin_lower_obs = lc_zero_obs(lc_obs(terms@));
        let ghost v7 = cs.values();
        let ghost obs0 = constraints_obs(cs);
        cs.enforce_lc_zero(terms);
        cs.enforce_nonneg_le(d_var, &diff);
        proof {
            lemma_field_diff_value(self.score, self.threshold, fr_nat(diff));
        }
        let ghost v21 = cs.values();
        let ghost obs_after_d = constraints_obs(cs);

        // MAX_SCORE - score, decomposed to prove it nonnegative.
        let max_fe = fe_from_u64(MAX_SCORE);
        let updiff = fe_sub(&max_fe, &score_fe);
        let u_var = cs.alloc_witness(updiff.clone());
        let mut upper_terms: Vec<Term> = Vec::new();
        upper_terms.push(Term { coeff: Coeff::Pos(MAX_SCORE), var: 0 });
        upper_terms.push(Term { coeff: Coeff::Neg(1), var: s_var });
        upper_terms.push(Term { coeff: Coeff::Neg(1), var: u_var });
        proof {
            let vals = cs.values();
            assert(vals[0] == 1);
            lemma_lc_const_diff3(MAX_SCORE, s_var, u_var, vals);
            assert(upper_terms@ == Seq::<Term>::empty().push(
                Term { coeff: Coeff::Pos(MAX_SCORE), var: 0 },
            ).push(Term { coeff: Coeff::Neg(1), var: s_var }).push(
                Term { coeff: Coeff::Neg(1), var: u_var },
            ));
            assert(vals[s_var as int] == self.score as nat);
            assert(vals[u_var as int] == fr_nat(updiff));
            assert(lc_val(upper_terms@, vals) == MAX_SCORE - self.score - fr_nat(updiff));
            lemma_diff_linear_zero(MAX_SCORE as int, self.score as int, fr_nat(updiff) as int);
        }
        let ghost lin_upper_obs = lc_zero_obs(lc_obs(upper_terms@));
        let ghost v22 = cs.values();
        cs.enforce_lc_zero(upper_terms);
        cs.enforce_nonneg_le(u_var, &updiff);
        proof {
            lemma_field_diff_value(MAX_SCORE, self.score, fr_nat(updiff));
        }
        let ghost v36 = cs.values();
        let ghost obs_after_u = constraints_obs(cs);

        // The commitment public input is bound to the hash constant.
        let neg_commit = fe_neg(&commitment);
        let mut commit_terms: Vec<Term> = Vec::new();
        commit_terms.push(Term { coeff: Coeff::Pos(1), var: c_var });
        commit_terms.push(Term { coeff: Coeff::Elem(neg_commit), var: 0 });
        proof {
            let vals = cs.values();
            assert(vals[0] == 1);
            assert(vals[c_var as int] == fr_nat(commitment));
            lemma_lc_bind2(c_var, neg_commit, vals);
            assert(commit_terms@ == Seq::<Term>::empty().push(
                Term { coeff: Coeff::Pos(1), var: c_var },
            ).push(Term { coeff: Coeff::Elem(neg_commit), var: 0 }));
            assert(lc_val(commit_terms@, vals) == fr_nat(commitment) + fr_nat(neg_commit));
            lemma_commit_binding(fr_nat(commitment), fr_nat(neg_commit));
        }
        let ghost bind_obs = lc_zero_obs(lc_obs(commit_terms@));
        cs.enforce_lc_zero(commit_terms);

        proof {
            assert(cs.public_values() =~= seq![
                self.threshold as nat,
                fr_nat(self.entity_hash),
                commitment_nat(self.score, fr_nat(self.salt), fr_nat(self.entity_hash)),
            ]);
            let commit_v = commitment_nat(self.score, fr_nat(self.salt), fr_nat(self.entity_hash));
            let d = fr_sub_val(self.score as nat, self.threshold as nat);
            let u = fr_sub_val(MAX_SCORE as nat, self.score as nat);
            assert(fr_nat(diff) == d);
            assert(fr_nat(updiff) == u);
            // The witness values, stage by stage.
            assert(v7 =~= seq![
                1nat,
                self.threshold as nat,
                fr_nat(self.entity_hash),
                commit_v,
                self.score as nat,
                fr_nat(self.salt),
                d,
            ]);
            assert(v21 == v7 + low14_bits(d));
            assert(v22 =~= v21 + seq![u]) by {
                assert(v22 == v21.push(u));
            }
            assert(v36 == v22 + low14_bits(u));
            assert(cs.values() == v36);
            assert(cs.values() =~= threshold_witness_values(*self)) by {
                assert(v22 == (v7 + low14_bits(d)) + seq![u]);
                assert(threshold_witness_values(*self) == ((seq![
                    1nat,
                    self.threshold as nat,
                    fr_nat(self.entity_hash),
                    commit_v,
                    self.score as nat,
                    fr_nat(self.salt),
                    d,
                ] + low14_bits(d)) + seq![u]) + low14_bits(u));
            }
            // The constraint list, stage by stage.
            assert(lc_obs(terms@) =~= seq![(1int, 4int), (-1int, 1int), (-1int, 6int)]) by {
                assert(terms@.len() == 3);
                assert(lc_obs(terms@).len() == 3);
                assert(lc_obs(terms@)[0] == term_obs(terms@[0]));
                assert(lc_obs(terms@)[1] == term_obs(terms@[1]));
                assert(lc_obs(terms@)[2] == term_obs(terms@[2]));
                assert(s_var == 4 && t_var == 1 && d_var == 6);
            }
            assert(lc_obs(upper_terms@) =~= seq![
                (MAX_SCORE as int, 0int),
                (-1int, 4int),
                (-1int, 21int),
            ]) by {
                assert(upper_terms@.len() == 3);
                assert(lc_obs(upper_terms@).len() == 3);
                assert(lc_obs(upper_terms@)[0] == term_obs(upper_terms@[0]));
                assert(lc_obs(upper_terms@)[1] == term_obs(upper_terms@[1]));
                assert(lc_obs(upper_terms@)[2] == term_obs(upper_terms@[2]));
                assert(u_var == 21);
            }
            assert(lc_obs(commit_terms@) =~= seq![(1int, 3int), (fr_neg_val(commit_v), 0int)]) by {
                assert(commit_terms@.len() == 2);
                assert(lc_obs(commit_terms@).len() == 2);
                assert(lc_obs(commit_terms@)[0] == term_obs(commit_terms@[0]));
                assert(lc_obs(commit_terms@)[1] == term_obs(commit_terms@[1]));
                assert(c_var == 3);
                assert(fr_nat(neg_commit) as int == fr_neg_val(commit_v));
            }
            assert(obs0 =~= Seq::<(Seq<(int, int)>, Seq<(int, int)>, Seq<(int, int)>)>::empty());
            assert(obs_after_d == obs0.push(lin_lower_obs) + nonneg_obs(7, 6));
            assert(obs_after_u == (obs_after_d.push(lin_upper_obs)) + nonneg_obs(22, 21));
            assert(constraints_obs(cs) == obs_after_u.push(bind_obs));
            assert(constraints_obs(cs) =~= threshold_constraints_obs(*self)) by {
                assert(obs0.push(lin_lower_obs) =~= seq![
                    lc_zero_obs(seq![(1int, 4int), (-1int, 1int), (-1int, 6int)]),
                ]);
                assert(obs_after_d.push(lin_upper_obs) =~= obs_after_d + seq![lin_upper_obs]);
                assert(obs_after_u.push(bind_obs) =~= obs_after_u + seq![bind_obs]);
                assert(seq![lin_upper_obs] =~= seq![
                    lc_zero_obs(seq![(MAX_SCORE as int, 0int), (-1int, 4int), (-1int, 21int)]),
                ]);
                assert(seq![bind_obs] =~= seq![
                    lc_zero_obs(seq![(1int, 3int), (fr_neg_val(commit_v), 0int)]),
                ]);
            }
        }
        Ok(cs)
    }
}

/// Native range proof circuit.
///
/// Proves: `min_score <= score <= max_score`, over a well-formed range.
pub struct RangeCircuit {
    /// Public: minimum of the range.
    pub min_score: u64,
    /// Public: maximum of the range.
    pub max_score: u64,
    /// Public: hash of the entity identifier.
    pub entity_hash: FieldElement,
    /// Private: actual compliance score.
    pub score: u64,
    /// Private: random salt for the commitment.
    pub salt: FieldElement,
}

/// Every variable value of the range circuit's synthesized system, in
/// allocation order: the constant one, the four public inputs, the score
/// and salt witnesses, then each range gadget's difference and its
/// fourteen bits.
pub open spec fn range_witness_values(c: RangeCircuit) -> Seq<nat> {
    let commit = commitment_nat(c.score, fr_nat(c.salt), fr_nat(c.entity_hash));
    let rd = fr_sub_val(c.max_score as nat, c.min_score as nat);
    let ld = fr_sub_val(c.score as nat, c.min_score as nat);
    let ud = fr_sub_val(c.max_score as nat, c.score as nat);
    seq![
        1nat,
        c.min_score as nat,
        c.max_score as nat,
        fr_nat(c.entity_hash),
        commit,
        c.score as nat,
        fr_nat(c.salt),
        rd,
    ] + low14_bits(rd) + seq![ld] + low14_bits(ld) + seq![ud] + low14_bits(ud)
}

/// Every constraint of the range circuit's synthesized system, observed,
/// in emission order: the three difference bindings each followed by a
/// range gadget, then the commitment binding.
pub open spec fn range_constraints_obs(c: RangeCircuit) -> Seq<
    (Seq<(int, int)>, Seq<(int, int)>, Seq<(int, int)>),
> {
    let commit = commitment_nat(c.score, fr_nat(c.salt), fr_nat(c.entity_hash));
    seq![lc_zero_obs(seq![(1int, 2int), (-1int, 1int), (-1int, 7int)])] + nonneg_obs(8, 7) + seq![
        lc_zero_obs(seq![(1int, 5int), (-1int, 1int), (-1int, 22int)]),
    ] + nonneg_obs(23, 22) + seq![lc_zero_obs(seq![(1int, 2int), (-1int, 5int), (-1int, 37int)])]
        + nonneg_obs(38, 37) + seq![lc_zero_obs(seq![(1int, 4int), (fr_neg_val(commit), 0int)])]
}

impl RangeCircuit {
    /// Create a new range circuit.
    pub fn new(
        min_score: u64,
        max_score: u64,
        entity_hash: FieldElement,
        score: u64,
        salt: FieldElement,
    ) -> (r: Self)
        ensures
            r.min_score == min_score,
            r.max_score == max_score,
            r.entity_hash == entity_hash,
            r.score == score,
            r.salt == salt,
    {
        Self { min_score, max_score, entity_hash, score, salt }
    }

    /// Emit the circuit's constraints together with the witness chosen
    /// from this statement: the public inputs are the two bounds, the
    /// entity hash and the commitment, and the system accepts exactly
    /// when the range is ordered and holds the private score, every gap
    /// within the range gadget's bound.
    #[verifier::rlimit(100)]
    pub fn generate_constraints(&self) -> (r: Result<ConstraintSystem, ProverError>)
        ensures
            r is Ok,
            r->Ok_0.wf(),
            r->Ok_0.num_public == 4,
            r->Ok_0.public_values() =~= seq![
                self.min_score as nat,
                self.max_score as nat,
                fr_nat(self.entity_hash),
                commitment_nat(self.score, fr_nat(self.salt), fr_nat(self.entity_hash)),
            ],
            r->Ok_0.spec_satisfied() <==> {
                &&& self.min_score <= self.max_score && self.max_score - self.min_score < 16384
                &&& self.min_score <= self.score && self.score - self.min_score < 16384
                &&& self.score <= self.max_score && self.max_score - self.score < 16384
            },
            r->Ok_0.values() =~= range_witness_values(*self),
            constraints_obs(r->Ok_0) =~= range_constraints_obs(*self),
    {
        let mut cs = ConstraintSystem::new();

        // Public inputs.
        let min_fe = fe_from_u64(self.min_score);
        let min_var = cs.alloc_public(min_fe.clone());
        let max_fe = fe_from_u64(self.max_score);
        let max_var = cs.alloc_public(max_fe.clone());
        let _e_var = cs.alloc_public(self.entity_hash.clone());
        let hasher = PoseidonHasher::new();
        let commitment = match hasher.compute_commitment(self.score, &self.salt, &self.entity_hash) {
            Ok(c) => c,
            Err(e) => {
                proof {
                    assert(false);
                }
                return Err(e);
            },
        };
        let c_var = cs.alloc_public(commitment.clone());

        // Private witnesses.
        let score_fe = fe_from_u64(self.score);
        let s_var = cs.alloc_witness(score_fe.clone());
        let _salt_var = cs.alloc_witness(self.salt.clone());

        // max_score - min_score: the range itself is well formed.
        let rdiff = fe_sub(&max_fe, &min_fe);
        let r_var = cs.alloc_witness(rdiff.clone());
        let mut range_terms: Vec<Term> = Vec::new();
        range_terms.push(Term { coeff: Coeff::Pos(1), var: max_var });
        range_terms.push(Term { coeff: Coeff::Neg(1), var: min_var });
        range_terms.push(Term { coeff: Coeff::Neg(1), var: r_var });
        proof {
            let vals = cs.values();
            lemma_lc_diff3(max_var, min_var, r_var, vals);
            assert(range_terms@ == Seq::<Term>::empty().push(
                Term { coeff: Coeff::Pos(1), var: max_var },
            ).push(Term { coeff: Coeff::Neg(1), var: min_var }).push(
                Term { coeff: Coeff::Neg(1), var: r_var },
            ));
            assert(vals[max_var as int] == self.max_score as nat);
            assert(vals[min_var as int] == self.min_score as nat);
            assert(vals[r_var as int] == fr_nat(rdiff));
            assert(lc_val(range_terms@, vals) == self.max_score - self.min_score - fr_nat(rdiff));
            lemma_diff_linear_zero(self.max_score as int, self.min_score as int,
                fr_nat(rdiff) as int);
        }
        let ghost lin_range_obs = lc_zero_obs(lc_obs(range_terms@));
        let ghost v8 = cs.values();
        let ghost obs0 = constraints_obs(cs);
        cs.enforce_lc_zero(range_terms);
        cs.enforce_nonneg_le(r_var, &rdiff);
        proof {
            lemma_field_diff_value(self.max_score, self.min_score, fr_nat(rdiff));
        }
        let ghost v22 = cs.values();
        let ghost obs_after_r = constraints_obs(cs);

        // score - min_score.
        let ldiff = fe_sub(&score_fe, &min_fe);
        let l_var = cs.alloc_witness(ldiff.clone());
        let mut lower_terms: Vec<Term> = Vec::new();
        lower_terms.push(Term { coeff: Coeff::Pos(1), var: s_var });
        lower_terms.push(Term { coeff: Coeff::Neg(1), var: min_var });
        lower_terms.push(Term { coeff: Coeff::Neg(1), var: l_var });
        proof {
            let vals = cs.values();
            lemma_lc_diff3(s_var, min_var, l_var, vals);
            assert(lower_terms@ == Seq::<Term>::empty().push(
                Term { coeff: Coeff::Pos(1), var: s_var },
            ).push(Term { coeff: Coeff::Neg(1), var: min_var }).push(
                Term { coeff: Coeff::Neg(1), var: l_var },
            ));
            assert(vals[s_var as int] == self.score as nat);
            assert(vals[min_var as int] == self.min_score as nat);
            assert(vals[l_var as int] == fr_nat(ldiff));
            assert(lc_val(lower_terms@, vals) == self.score - self.min_score - fr_nat(ldiff));
            lemma_diff_linear_zero(self.score as int, self.min_score as int, fr_nat(ldiff) as int);
        }
        let ghost lin_lower_obs = lc_zero_obs(lc_obs(lower_terms@));
        let ghost v23 = cs.values();
        cs.enforce_lc_zero(lower_terms);
        cs.enforce_nonneg_le(l_var, &ldiff);
        proof {
            lemma_field_diff_value(self.score, self.min_score, fr_nat(ldiff));
        }
        let ghost v37 = cs.values();
        let ghost obs_after_l = constraints_obs(cs);

        // max_score - score.
        let udiff = fe_sub(&max_fe, &score_fe);
        let u_var = cs.alloc_witness(udiff.clone());
        let mut upper_terms: Vec<Term> = Vec::new();
        upper_terms.push(Term { coeff: Coeff::Pos(1), var: max_var });
        upper_terms.push(Term { coeff: Coeff::Neg(1), var: s_var });
        upper_terms.push(Term { coeff: Coeff::Neg(1), var: u_var });
        proof {
            let vals = cs.values();
            lemma_lc_diff3(max_var, s_var, u_var, vals);
            assert(upper_terms@ == Seq::<Term>::empty().push(
                Term { coeff: Coeff::Pos(1), var: max_var },
            ).push(Term { coeff: Coeff::Neg(1), var: s_var }).push(
                Term { coeff: Coeff::Neg(1), var: u_var },
            ));
            assert(vals[max_var as int] == self.max_score as nat);
            assert(vals[s_var as int] == self.score as nat);
            assert(vals[u_var as int] == fr_nat(udiff));
            assert(lc_val(upper_terms@, vals) == self.max_score - self.score - fr_nat(udiff));
            lemma_diff_linear_zero(self.max_score as int, self.score as int, fr_nat(udiff) as int);
        }
        let ghost lin_upper_obs = lc_zero_obs(lc_obs(upper_terms@));
        let ghost v38 = cs.values();
        cs.enforce_lc_zero(upper_terms);
        cs.enforce_nonneg_le(u_var, &udiff);
        proof {
            lemma_field_diff_value(self.max_score, self.score, fr_nat(udiff));
        }
        let ghost v52 = cs.values();
        let ghost obs_after_u = constraints_obs(cs);

        // The commitment public input is bound to the hash constant.
        let neg_commit = fe_neg(&commitment);
        let mut commit_terms: Vec<Term> = Vec::new();
        commit_terms.push(Term { coeff: Coeff::Pos(1), var: c_var });
        commit_terms.push(Term { coeff: Coeff::Elem(neg_commit), var: 0 });
        proof {
            let vals = cs.values();
            assert(vals[0] == 1);
            assert(vals[c_var as int] == fr_nat(commitment));
            lemma_lc_bind2(c_var, neg_commit, vals);
            assert(commit_terms@ == Seq::<Term>::empty().push(
                Term { coeff: Coeff::Pos(1), var: c_var },
            ).push(Term { coeff: Coeff::Elem(neg_commit), var: 0 }));
            assert(lc_val(commit_terms@, vals) == fr_nat(commitment) + fr_nat(neg_commit));
            lemma_commit_binding(fr_nat(commitment), fr_nat(neg_commit));
        }
        let ghost bind_obs = lc_zero_obs(lc_obs(commit_terms@));
        cs.enforce_lc_zero(commit_terms);

        proof {
            assert(cs.public_values() =~= seq![
                self.min_score as nat,
                self.max_score as nat,
                fr_nat(self.entity_hash),
                commitment_nat(self.score, fr_nat(self.salt), fr_nat(self.entity_hash)),
            ]);
            let commit_v = commitment_nat(self.score, fr_nat(self.salt), fr_nat(self.entity_hash));
            let rd = fr_sub_val(self.max_score as nat, self.min_score as nat);
            let ld = fr_sub_val(self.score as nat, self.min_score as nat);
            let ud = fr_sub_val(self.max_score as nat, self.score as nat);
            assert(fr_nat(rdiff) == rd);
            assert(fr_nat(ldiff) == ld);
            assert(fr_nat(udiff) == ud);
            assert(v8 =~= seq![
                1nat,
                self.min_score as nat,
                self.max_score as nat,
                fr_nat(self.entity_hash),
                commit_v,
                self.score as nat,
                fr_nat(self.salt),
                rd,
            ]);
            assert(v22 == v8 + low14_bits(rd));
            assert(v23 =~= v22 + seq![ld]) by {
                assert(v23 == v22.push(ld));
            }
            assert(v37 == v23 + low14_bits(ld));
            assert(v38 =~= v37 + seq![ud]) by {
                assert(v38 == v37.push(ud));
            }
            assert(v52 == v38 + low14_bits(ud));
            assert(cs.values() == v52);
            assert(cs.values() =~= range_witness_values(*self)) by {
                assert(range_witness_values(*self) == ((((seq![
                    1nat,
                    self.min_score as nat,
                    self.max_score as nat,
                    fr_nat(self.entity_hash),
                    commit_v,
                    self.score as nat,
                    fr_nat(self.salt),
                    rd,
                ] + low14_bits(rd)) + seq![ld]) + low14_bits(ld)) + seq![ud]) + low14_bits(ud));
            }
            assert(lc_obs(range_terms@) =~= seq![(1int, 2int), (-1int, 1int), (-1int, 7int)]) by {
                assert(range_terms@.len() == 3);
                assert(lc_obs(range_terms@).len() == 3);
                assert(lc_obs(range_terms@)[0] == term_obs(range_terms@[0]));
                assert(lc_obs(range_terms@)[1] == term_obs(range_terms@[1]));
                assert(lc_obs(range_terms@)[2] == term_obs(range_terms@[2]));
                assert(max_var == 2 && min_var == 1 && r_var == 7);
            }
            assert(lc_obs(lower_terms@) =~= seq![(1int, 5int), (-1int, 1int), (-1int, 22int)]) by {
                assert(lower_terms@.len() == 3);
                assert(lc_obs(lower_terms@).len() == 3);
                assert(lc_obs(lower_terms@)[0] == term_obs(lower_terms@[0]));
                assert(lc_obs(lower_terms@)[1] == term_obs(lower_terms@[1]));
                assert(lc_obs(lower_terms@)[2] == term_obs(lower_terms@[2]));
                assert(s_var == 5 && l_var == 22);
            }
            assert(lc_obs(upper_terms@) =~= seq![(1int, 2int), (-1int, 5int), (-1int, 37int)]) by {
                assert(upper_terms@.len() == 3);
                assert(lc_obs(upper_terms@).len() == 3);
                assert(lc_obs(upper_terms@)[0] == term_obs(upper_terms@[0]));
                assert(lc_obs(upper_terms@)[1] == term_obs(upper_terms@[1]));
                assert(lc_obs(upper_terms@)[2] == term_obs(upper_terms@[2]));
                assert(u_var == 37);
            }
            assert(lc_obs(commit_terms@) =~= seq![(1int, 4int), (fr_neg_val(commit_v), 0int)]) by {
                assert(commit_terms@.len() == 2);
                assert(lc_obs(commit_terms@).len() == 2);
                assert(lc_obs(commit_terms@)[0] == term_obs(commit_terms@[0]));
                assert(lc_obs(commit_terms@)[1] == term_obs(commit_terms@[1]));
                assert(c_var == 4);
                assert(fr_nat(neg_commit) as int == fr_neg_val(commit_v));
            }
            assert(obs0 =~= Seq::<(Seq<(int, int)>, Seq<(int, int)>, Seq<(int, int)>)>::empty());
            assert(obs_after_r == obs0.push(lin_range_obs) + nonneg_obs(8, 7));
            assert(obs_after_l == (obs_after_r.push(lin_lower_obs)) + nonneg_obs(23, 22));
            assert(obs_after_u == (obs_after_l.push(lin_upper_obs)) + nonneg_obs(38, 37));
            assert(constraints_obs(cs) == obs_after_u.push(bind_obs));
            assert(constraints_obs(cs) =~= range_constraints_obs(*self)) by {
                assert(obs0.push(lin_range_obs) =~= seq![
                    lc_zero_obs(seq![(1int, 2int), (-1int, 1int), (-1int, 7int)]),
                ]);
                assert(obs_after_r.push(lin_lower_obs) =~= obs_after_r + seq![lin_lower_obs]);
                assert(obs_after_l.push(lin_upper_obs) =~= obs_after_l + seq![lin_upper_obs]);
                assert(obs_after_u.push(bind_obs) =~= obs_after_u + seq![bind_obs]);
                assert(seq![lin_lower_obs] =~= seq![
                    lc_zero_obs(seq![(1int, 5int), (-1int, 1int), (-1int, 22int)]),
                ]);
                assert(seq![lin_upper_obs] =~= seq![
                    lc_zero_obs(seq![(1int, 2int), (-1int, 5int), (-1int, 37int)]),
                ]);
                assert(seq![bind_obs] =~= seq![
                    lc_zero_obs(seq![(1int, 4int), (fr_neg_val(commit_v), 0int)]),
                ]);
            }
        }
        Ok(cs)
    }
}

/// A range circuit synthesized from a statement within the data model's
/// bounds is accepted by its own constraint system.
pub proof fn lemma_range_circuit_satisfiable(c: RangeCircuit)
    requires
        c.min_score <= c.score,
        c.score <= c.max_score,
        c.max_score <= MAX_SCORE,
    ensures
        c.min_score <= c.max_score && c.max_score - c.min_score < 16384,
        c.min_score <= c.score && c.score - c.min_score < 16384,
        c.score <= c.max_score && c.max_score - c.score < 16384,
{
}

/// Equality of two canonical residues is exactly the vanishing of their
/// difference modulo the field order.
proof fn lemma_mod_zero_iff_eq(x: int, y: int)
    requires
        0 <= x < fr_order(),
        0 <= y < fr_order(),
    ensures
        ((x - y) % (fr_order() as int) == 0) <==> (x == y),
{
    let p = fr_order() as int;
    vstd::arithmetic::div_mod::lemma_mod_equivalence(x, y, p);
    lemma_small_mod(x as nat, fr_order());
    lemma_small_mod(y as nat, fr_order());
}

/// Native tier membership circuit.
///
/// Proves: the private score lies in the interval the fixed tier table
/// binds to the public target tier. The tier is selected inside the
/// circuit by five boolean indicator witnesses rather than by branching.
pub struct TierCircuit {
    /// Public: target tier (1-5).
    pub target_tier: u8,
    /// Public: hash of the entity identifier.
    pub entity_hash: FieldElement,
    /// Private: actual compliance score.
    pub score: u64,
    /// Private: random salt for the commitment.
    pub salt: FieldElement,
}

/// Every variable value of the tier circuit's synthesized system, in
/// allocation order: the constant one, the three public inputs, the score
/// and salt witnesses, the five tier indicators, the selected bounds, the
/// two differences, then each range gadget's fourteen bits.
pub open spec fn tier_witness_values(c: TierCircuit) -> Seq<nat> {
    let commit = commitment_nat(c.score, fr_nat(c.salt), fr_nat(c.entity_hash));
    let mn = spec_tier_bounds(c.target_tier).0;
    let mx = spec_tier_bounds(c.target_tier).1;
    let ld = fr_sub_val(c.score as nat, mn as nat);
    let ud = fr_sub_val(mx as nat, c.score as nat);
    seq![
        1nat,
        c.target_tier as nat,
        fr_nat(c.entity_hash),
        commit,
        c.score as nat,
        fr_nat(c.salt),
        (if c.target_tier == 1 { 1nat } else { 0nat }),
        (if c.target_tier == 2 { 1nat } else { 0nat }),
        (if c.target_tier == 3 { 1nat } else { 0nat }),
        (if c.target_tier == 4 { 1nat } else { 0nat }),
        (if c.target_tier == 5 { 1nat } else { 0nat }),
        mn as nat,
        mx as nat,
        ld,
        ud,
    ] + low14_bits(ld) + low14_bits(ud)
}

/// Every constraint of the tier circuit's synthesized system, observed,
/// in emission order: the five indicator boolean constraints, the four
/// selector bindings, the two difference bindings each followed by a
/// range gadget, then the commitment binding.
pub open spec fn tier_constraints_obs(c: TierCircuit) -> Seq<
    (Seq<(int, int)>, Seq<(int, int)>, Seq<(int, int)>),
> {
    let commit = commitment_nat(c.score, fr_nat(c.salt), fr_nat(c.entity_hash));
    seq![
        bool_obs(6),
        bool_obs(7),
        bool_obs(8),
        bool_obs(9),
        bool_obs(10),
        lc_zero_obs(
            seq![(1int, 6int), (1int, 7int), (1int, 8int), (1int, 9int), (1int, 10int), (
                -1int,
                0int,
            )],
        ),
        lc_zero_obs(
            seq![(1int, 6int), (2int, 7int), (3int, 8int), (4int, 9int), (5int, 10int), (
                -1int,
                1int,
            )],
        ),
        lc_zero_obs(
            seq![(1int, 11int), (-9500int, 6int), (-8500int, 7int), (-7000int, 8int), (
                -5000int,
                9int,
            ), (0int, 10int)],
        ),
        lc_zero_obs(
            seq![(1int, 12int), (-10000int, 6int), (-9499int, 7int), (-8499int, 8int), (
                -6999int,
                9int,
            ), (-4999int, 10int)],
        ),
        lc_zero_obs(seq![(1int, 4int), (-1int, 11int), (-1int, 13int)]),
    ] + nonneg_obs(15, 13) + seq![lc_zero_obs(seq![(1int, 12int), (-1int, 4int), (-1int, 14int)])]
        + nonneg_obs(29, 14) + seq![lc_zero_obs(seq![(1int, 3int), (fr_neg_val(commit), 0int)])]
}

/// Assembles the tier circuit's witness values from its three stages.
proof fn lemma_tier_values_assembly(c: TierCircuit, v15: Seq<nat>, v29: Seq<nat>, v43: Seq<nat>)
    requires
        v15 =~= seq![
            1nat,
            c.target_tier as nat,
            fr_nat(c.entity_hash),
            commitment_nat(c.score, fr_nat(c.salt), fr_nat(c.entity_hash)),
            c.score as nat,
            fr_nat(c.salt),
            (if c.target_tier == 1 { 1nat } else { 0nat }),
            (if c.target_tier == 2 { 1nat } else { 0nat }),
            (if c.target_tier == 3 { 1nat } else { 0nat }),
            (if c.target_tier == 4 { 1nat } else { 0nat }),
            (if c.target_tier == 5 { 1nat } else { 0nat }),
            spec_tier_bounds(c.target_tier).0 as nat,
            spec_tier_bounds(c.target_tier).1 as nat,
            fr_sub_val(c.score as nat, spec_tier_bounds(c.target_tier).0 as nat),
            fr_sub_val(spec_tier_bounds(c.target_tier).1 as nat, c.score as nat),
        ],
        v29 == v15 + low14_bits(fr_sub_val(c.score as nat, spec_tier_bounds(c.target_tier).0 as nat)),
        v43 == v29 + low14_bits(
            fr_sub_val(spec_tier_bounds(c.target_tier).1 as nat, c.score as nat),
        ),
    ensures
        v43 =~= tier_witness_values(c),
{
}

/// Assembles the tier circuit's constraint observations from its stages.
proof fn lemma_tier_obs_assembly(
    c: TierCircuit,
    obs0: Seq<(Seq<(int, int)>, Seq<(int, int)>, Seq<(int, int)>)>,
    obs_bools: Seq<(Seq<(int, int)>, Seq<(int, int)>, Seq<(int, int)>)>,
    obs_pre_lo: Seq<(Seq<(int, int)>, Seq<(int, int)>, Seq<(int, int)>)>,
    obs_after_lo: Seq<(Seq<(int, int)>, Seq<(int, int)>, Seq<(int, int)>)>,
    obs_pre_hi: Seq<(Seq<(int, int)>, Seq<(int, int)>, Seq<(int, int)>)>,
    obs_after_hi: Seq<(Seq<(int, int)>, Seq<(int, int)>, Seq<(int, int)>)>,
    obs_final: Seq<(Seq<(int, int)>, Seq<(int, int)>, Seq<(int, int)>)>,
)
    requires
        obs0 =~= Seq::<(Seq<(int, int)>, Seq<(int, int)>, Seq<(int, int)>)>::empty(),
        obs_bools == obs0.push(bool_obs(6)).push(bool_obs(7)).push(bool_obs(8)).push(
            bool_obs(9),
        ).push(bool_obs(10)),
        obs_pre_lo == obs_bools.push(
            lc_zero_obs(
                seq![(1int, 6int), (1int, 7int), (1int, 8int), (1int, 9int), (1int, 10int), (
                    -1int,
                    0int,
                )],
            ),
        ).push(
            lc_zero_obs(
                seq![(1int, 6int), (2int, 7int), (3int, 8int), (4int, 9int), (5int, 10int), (
                    -1int,
                    1int,
                )],
            ),
        ).push(
            lc_zero_obs(
                seq![(1int, 11int), (-9500int, 6int), (-8500int, 7int), (-7000int, 8int), (
                    -5000int,
                    9int,
                ), (0int, 10int)],
            ),
        ).push(
            lc_zero_obs(
                seq![(1int, 12int), (-10000int, 6int), (-9499int, 7int), (-8499int, 8int), (
                    -6999int,
                    9int,
                ), (-4999int, 10int)],
            ),
        ).push(lc_zero_obs(seq![(1int, 4int), (-1int, 11int), (-1int, 13int)])),
        obs_after_lo == obs_pre_lo + nonneg_obs(15, 13),
        obs_pre_hi == obs_after_lo.push(
            lc_zero_obs(seq![(1int, 12int), (-1int, 4int), (-1int, 14int)]),
        ),
        obs_after_hi == obs_pre_hi + nonneg_obs(29, 14),
        obs_final == obs_after_hi.push(
            lc_zero_obs(
                seq![(1int, 3int), (
                    fr_neg_val(commitment_nat(c.score, fr_nat(c.salt), fr_nat(c.entity_hash))),
                    0int,
                )],
            ),
        ),
    ensures
        obs_final =~= tier_constraints_obs(c),
{
    assert(obs_pre_hi =~= obs_after_lo + seq![
        lc_zero_obs(seq![(1int, 12int), (-1int, 4int), (-1int, 14int)]),
    ]);
    assert(obs_final =~= obs_after_hi + seq![
        lc_zero_obs(
            seq![(1int, 3int), (
                fr_neg_val(commitment_nat(c.score, fr_nat(c.salt), fr_nat(c.entity_hash))),
                0int,
            )],
        ),
    ]);
}

impl TierCircuit {
    /// Create a new tier circuit.
    pub fn new(target_tier: u8, entity_hash: FieldElement, score: u64, salt: FieldElement) -> (r:
        Self)
        ensures
            r.target_tier == target_tier,
            r.entity_hash == entity_hash,
            r.score == score,
            r.salt == salt,
    {
        Self { target_tier, entity_hash, score, salt }
    }

    /// Emit the circuit's constraints together with the witness chosen
    /// from this statement: the public inputs are the target tier, the
    /// entity hash and the commitment, and the system accepts exactly
    /// when the tier is one of 1 through 5 and the private score lies in
    /// its interval.
    #[verifier::rlimit(100)]
    pub fn generate_constraints(&self) -> (r: Result<ConstraintSystem, ProverError>)
        ensures
            r is Ok,
            r->Ok_0.wf(),
            r->Ok_0.num_public == 3,
            r->Ok_0.public_values() =~= seq![
                self.target_tier as nat,
                fr_nat(self.entity_hash),
                commitment_nat(self.score, fr_nat(self.salt), fr_nat(self.entity_hash)),
            ],
            r->Ok_0.spec_satisfied() <==> (1 <= self.target_tier <= 5 && spec_tier_bounds(
                self.target_tier,
            ).0 <= self.score && self.score <= spec_tier_bounds(self.target_tier).1),
            r->Ok_0.values() =~= tier_witness_values(*self),
            constraints_obs(r->Ok_0) =~= tier_constraints_obs(*self),
    {
        let mut cs = ConstraintSystem::new();
        let t = self.target_tier;

        // Public inputs.
        let t_fe = fe_from_u64(t as u64);
        let t_var = cs.alloc_public(t_fe);
        let _e_var = cs.alloc_public(self.entity_hash.clone());
        let hasher = PoseidonHasher::new();
        let commitment = match hasher.compute_commitment(self.score, &self.salt, &self.entity_hash) {
            Ok(c) => c,
            Err(e) => {
                proof {
                    assert(false);
                }
                return Err(e);
            },
        };
        let c_var = cs.alloc_public(commitment.clone());

        // Private witnesses: the score, the salt, the five tier
        // indicators, the selected bounds and the two differences.
        let score_fe = fe_from_u64(self.score);
        let s_var = cs.alloc_witness(score_fe.clone());
        let _salt_var = cs.alloc_witness(self.salt.clone());
        let i1: u64 = if t == 1 { 1 } else { 0 };
        let i2: u64 = if t == 2 { 1 } else { 0 };
        let i3: u64 = if t == 3 { 1 } else { 0 };
        let i4: u64 = if t == 4 { 1 } else { 0 };
        let i5: u64 = if t == 5 { 1 } else { 0 };
        let v1 = cs.alloc_witness(fe_from_u64(i1));
        let v2 = cs.alloc_witness(fe_from_u64(i2));
        let v3 = cs.alloc_witness(fe_from_u64(i3));
        let v4 = cs.alloc_witness(fe_from_u64(i4));
        let v5 = cs.alloc_witness(fe_from_u64(i5));
        let (tier_min, tier_max) = TierInput::tier_bounds(t);
        let min_fe = fe_from_u64(tier_min);
        let min_var = cs.alloc_witness(min_fe.clone());
        let max_fe = fe_from_u64(tier_max);
        let max_var = cs.alloc_witness(max_fe.clone());
        let ldiff = fe_sub(&score_fe, &min_fe);
        let l_var = cs.alloc_witness(ldiff.clone());
        let udiff = fe_sub(&max_fe, &score_fe);
        let u_var = cs.alloc_witness(udiff.clone());

        let ghost v15 = cs.values();
        let ghost obs0 = constraints_obs(cs);
        // Each indicator is boolean.
        cs.enforce_boolean(v1);
        cs.enforce_boolean(v2);
        cs.enforce_boolean(v3);
        cs.enforce_boolean(v4);
        cs.enforce_boolean(v5);
        let ghost obs_bools = constraints_obs(cs);
        proof {
            let vals = cs.values();
            assert((vals[v1 as int] as int) * ((vals[v1 as int] as int) - 1) % (fr_order() as int)
                == 0) by {
                assert(vals[v1 as int] == i1 as nat);
                assert(i1 == 0 || i1 == 1);
                assert((i1 as int) * ((i1 as int) - 1) == 0) by (nonlinear_arith)
                    requires
                        i1 == 0 || i1 == 1,
                ;
                assert((0int) % (fr_order() as int) == 0);
            }
            assert((vals[v2 as int] as int) * ((vals[v2 as int] as int) - 1) % (fr_order() as int)
                == 0) by {
                assert(vals[v2 as int] == i2 as nat);
                assert(i2 == 0 || i2 == 1);
                assert((i2 as int) * ((i2 as int) - 1) == 0) by (nonlinear_arith)
                    requires
                        i2 == 0 || i2 == 1,
                ;
                assert((0int) % (fr_order() as int) == 0);
            }
            assert((vals[v3 as int] as int) * ((vals[v3 as int] as int) - 1) % (fr_order() as int)
                == 0) by {
                assert(vals[v3 as int] == i3 as nat);
                assert(i3 == 0 || i3 == 1);
                assert((i3 as int) * ((i3 as int) - 1) == 0) by (nonlinear_arith)
                    requires
                        i3 == 0 || i3 == 1,
                ;
                assert((0int) % (fr_order() as int) == 0);
            }
            assert((vals[v4 as int] as int) * ((vals[v4 as int] as int) - 1) % (fr_order() as int)
                == 0) by {
                assert(vals[v4 as int] == i4 as nat);
                assert(i4 == 0 || i4 == 1);
                assert((i4 as int) * ((i4 as int) - 1) == 0) by (nonlinear_arith)
                    requires
                        i4 == 0 || i4 == 1,
                ;
                assert((0int) % (fr_order() as int) == 0);
            }
            assert((vals[v5 as int] as int) * ((vals[v5 as int] as int) - 1) % (fr_order() as int)
                == 0) by {
                assert(vals[v5 as int] == i5 as nat);
                assert(i5 == 0 || i5 == 1);
                assert((i5 as int) * ((i5 as int) - 1) == 0) by (nonlinear_arith)
                    requires
                        i5 == 0 || i5 == 1,
                ;
                assert((0int) % (fr_order() as int) == 0);
            }
        }

        // Exactly one indicator is set.
        let mut sum_terms: Vec<Term> = Vec::new();
        sum_terms.push(Term { coeff: Coeff::Pos(1), var: v1 });
        sum_terms.push(Term { coeff: Coeff::Pos(1), var: v2 });
        sum_terms.push(Term { coeff: Coeff::Pos(1), var: v3 });
        sum_terms.push(Term { coeff: Coeff::Pos(1), var: v4 });
        sum_terms.push(Term { coeff: Coeff::Pos(1), var: v5 });
        sum_terms.push(Term { coeff: Coeff::Neg(1), var: 0 });
        proof {
            let vals = cs.values();
            lemma_lc_wsum5_neg1(1, 1, 1, 1, 1, v1, v2, v3, v4, v5, 0, vals);
            assert(sum_terms@ == Seq::<Term>::empty().push(Term { coeff: Coeff::Pos(1), var: v1 })
                .push(Term { coeff: Coeff::Pos(1), var: v2 }).push(
                Term { coeff: Coeff::Pos(1), var: v3 },
            ).push(Term { coeff: Coeff::Pos(1), var: v4 }).push(
                Term { coeff: Coeff::Pos(1), var: v5 },
            ).push(Term { coeff: Coeff::Neg(1), var: 0 }));
            assert(vals[0] == 1);
            assert(vals[v1 as int] == i1 as nat);
            assert(vals[v2 as int] == i2 as nat);
            assert(vals[v3 as int] == i3 as nat);
            assert(vals[v4 as int] == i4 as nat);
            assert(vals[v5 as int] == i5 as nat);
            assert(lc_val(sum_terms@, vals) == (i1 + i2 + i3 + i4 + i5) - 1);
        }
        let ghost sum_obs = lc_zero_obs(lc_obs(sum_terms@));
        cs.enforce_lc_zero(sum_terms);
        proof {
            lemma_mod_zero_iff_eq((i1 + i2 + i3 + i4 + i5) as int, 1);
        }

        // The set indicator names the target tier.
        let mut weight_terms: Vec<Term> = Vec::new();
        weight_terms.push(Term { coeff: Coeff::Pos(1), var: v1 });
        weight_terms.push(Term { coeff: Coeff::Pos(2), var: v2 });
        weight_terms.push(Term { coeff: Coeff::Pos(3), var: v3 });
        weight_terms.push(Term { coeff: Coeff::Pos(4), var: v4 });
        weight_terms.push(Term { coeff: Coeff::Pos(5), var: v5 });
        weight_terms.push(Term { coeff: Coeff::Neg(1), var: t_var });
        proof {
            let vals = cs.values();
            lemma_lc_wsum5_neg1(1, 2, 3, 4, 5, v1, v2, v3, v4, v5, t_var, vals);
            assert(weight_terms@ == Seq::<Term>::empty().push(
                Term { coeff: Coeff::Pos(1), var: v1 },
            ).push(Term { coeff: Coeff::Pos(2), var: v2 }).push(
                Term { coeff: Coeff::Pos(3), var: v3 },
            ).push(Term { coeff: Coeff::Pos(4), var: v4 }).push(
                Term { coeff: Coeff::Pos(5), var: v5 },
            ).push(Term { coeff: Coeff::Neg(1), var: t_var }));
            assert(vals[t_var as int] == t as nat);
            assert(vals[v1 as int] == i1 as nat);
            assert(vals[v2 as int] == i2 as nat);
            assert(vals[v3 as int] == i3 as nat);
            assert(vals[v4 as int] == i4 as nat);
            assert(vals[v5 as int] == i5 as nat);
            assert(lc_val(weight_terms@, vals) == (i1 + 2 * i2 + 3 * i3 + 4 * i4 + 5 * i5) - t);
        }
        let ghost weight_obs = lc_zero_obs(lc_obs(weight_terms@));
        cs.enforce_lc_zero(weight_terms);
        proof {
            lemma_mod_zero_iff_eq((i1 + 2 * i2 + 3 * i3 + 4 * i4 + 5 * i5) as int, t as int);
        }

        // The selected lower bound follows the set indicator.
        let mut selmin_terms: Vec<Term> = Vec::new();
        selmin_terms.push(Term { coeff: Coeff::Pos(1), var: min_var });
        selmin_terms.push(Term { coeff: Coeff::Neg(tiers::TIER_1_MIN), var: v1 });
        selmin_terms.push(Term { coeff: Coeff::Neg(tiers::TIER_2_MIN), var: v2 });
        selmin_terms.push(Term { coeff: Coeff::Neg(tiers::TIER_3_MIN), var: v3 });
        selmin_terms.push(Term { coeff: Coeff::Neg(tiers::TIER_4_MIN), var: v4 });
        selmin_terms.push(Term { coeff: Coeff::Neg(tiers::TIER_5_MIN), var: v5 });
        proof {
            let vals = cs.values();
            lemma_lc_pos1_negs5(tiers::TIER_1_MIN, tiers::TIER_2_MIN, tiers::TIER_3_MIN,
                tiers::TIER_4_MIN, tiers::TIER_5_MIN, v1, v2, v3, v4, v5, min_var, vals);
            assert(selmin_terms@ == Seq::<Term>::empty().push(
                Term { coeff: Coeff::Pos(1), var: min_var },
            ).push(Term { coeff: Coeff::Neg(tiers::TIER_1_MIN), var: v1 }).push(
                Term { coeff: Coeff::Neg(tiers::TIER_2_MIN), var: v2 },
            ).push(Term { coeff: Coeff::Neg(tiers::TIER_3_MIN), var: v3 }).push(
                Term { coeff: Coeff::Neg(tiers::TIER_4_MIN), var: v4 },
            ).push(Term { coeff: Coeff::Neg(tiers::TIER_5_MIN), var: v5 }));
            assert(vals[min_var as int] == tier_min as nat);
            assert(vals[v1 as int] == i1 as nat);
            assert(vals[v2 as int] == i2 as nat);
            assert(vals[v3 as int] == i3 as nat);
            assert(vals[v4 as int] == i4 as nat);
            assert(vals[v5 as int] == i5 as nat);
            assert(lc_val(selmin_terms@, vals) == tier_min - (9500 * i1 + 8500 * i2 + 7000 * i3
                + 5000 * i4 + 0 * i5));
            assert(lc_val(selmin_terms@, vals) == 0);
            lemma_mod_zero_iff_eq(0, 0);
        }
        let ghost selmin_obs = lc_zero_obs(lc_obs(selmin_terms@));
        cs.enforce_lc_zero(selmin_terms);

        // The selected upper bound follows the set indicator.
        let mut selmax_terms: Vec<Term> = Vec::new();
        selmax_terms.push(Term { coeff: Coeff::Pos(1), var: max_var });
        selmax_terms.push(Term { coeff: Coeff::Neg(10000), var: v1 });
        selmax_terms.push(Term { coeff: Coeff::Neg(9499), var: v2 });
        selmax_terms.push(Term { coeff: Coeff::Neg(8499), var: v3 });
        selmax_terms.push(Term { coeff: Coeff::Neg(6999), var: v4 });
        selmax_terms.push(Term { coeff: Coeff::Neg(4999), var: v5 });
        proof {
            let vals = cs.values();
            lemma_lc_pos1_negs5(10000, 9499, 8499, 6999, 4999, v1, v2, v3, v4, v5, max_var, vals);
            assert(selmax_terms@ == Seq::<Term>::empty().push(
                Term { coeff: Coeff::Pos(1), var: max_var },
            ).push(Term { coeff: Coeff::Neg(10000), var: v1 }).push(
                Term { coeff: Coeff::Neg(9499), var: v2 },
            ).push(Term { coeff: Coeff::Neg(8499), var: v3 }).push(
                Term { coeff: Coeff::Neg(6999), var: v4 },
            ).push(Term { coeff: Coeff::Neg(4999), var: v5 }));
            assert(vals[max_var as int] == tier_max as nat);
            assert(vals[v1 as int] == i1 as nat);
            assert(vals[v2 as int] == i2 as nat);
            assert(vals[v3 as int] == i3 as nat);
            assert(vals[v4 as int] == i4 as nat);
            assert(vals[v5 as int] == i5 as nat);
            assert(lc_val(selmax_terms@, vals) == tier_max - (10000 * i1 + 9499 * i2 + 8499 * i3
                + 6999 * i4 + 4999 * i5));
            assert(lc_val(selmax_terms@, vals) == 0);
            lemma_mod_zero_iff_eq(0, 0);
        }
        let ghost selmax_obs = lc_zero_obs(lc_obs(selmax_terms@));
        cs.enforce_lc_zero(selmax_terms);

        // score - selected minimum, decomposed to prove it nonnegative.
        let mut lower_terms: Vec<Term> = Vec::new();
        lower_terms.push(Term { coeff: Coeff::Pos(1), var: s_var });
        lower_terms.push(Term { coeff: Coeff::Neg(1), var: min_var });
        lower_terms.push(Term { coeff: Coeff::Neg(1), var: l_var });
        proof {
            let vals = cs.values();
            lemma_lc_diff3(s_var, min_var, l_var, vals);
            assert(lower_terms@ == Seq::<Term>::empty().push(
                Term { coeff: Coeff::Pos(1), var: s_var },
            ).push(Term { coeff: Coeff::Neg(1), var: min_var }).push(
                Term { coeff: Coeff::Neg(1), var: l_var },
            ));
            assert(vals[s_var as int] == self.score as nat);
            assert(vals[min_var as int] == tier_min as nat);
            assert(vals[l_var as int] == fr_nat(ldiff));
            assert(lc_val(lower_terms@, vals) == self.score - tier_min - fr_nat(ldiff));
            lemma_diff_linear_zero(self.score as int, tier_min as int, fr_nat(ldiff) as int);
        }
        let ghost lin_lo_obs = lc_zero_obs(lc_obs(lower_terms@));
        cs.enforce_lc_zero(lower_terms);
        let ghost obs_pre_gadget_lo = constraints_obs(cs);
        cs.enforce_nonneg_le(l_var, &ldiff);
        proof {
            lemma_field_diff_value(self.score, tier_min, fr_nat(ldiff));
        }
        let ghost v29 = cs.values();
        let ghost obs_after_lo = constraints_obs(cs);

        // selected maximum - score, decomposed to prove it nonnegative.
        let mut upper_terms: Vec<Term> = Vec::new();
        upper_terms.push(Term { coeff: Coeff::Pos(1), var: max_var });
        upper_terms.push(Term { coeff: Coeff::Neg(1), var: s_var });
        upper_terms.push(Term { coeff: Coeff::Neg(1), var: u_var });
        proof {
            let vals = cs.values();
            lemma_lc_diff3(max_var, s_var, u_var, vals);
            assert(upper_terms@ == Seq::<Term>::empty().push(
                Term { coeff: Coeff::Pos(1), var: max_var },
            ).push(Term { coeff: Coeff::Neg(1), var: s_var }).push(
                Term { coeff: Coeff::Neg(1), var: u_var },
            ));
            assert(vals[max_var as int] == tier_max as nat);
            assert(vals[s_var as int] == self.score as nat);
            assert(vals[u_var as int] == fr_nat(udiff));
            assert(lc_val(upper_terms@, vals) == tier_max - self.score - fr_nat(udiff));
            lemma_diff_linear_zero(tier_max as int, self.score as int, fr_nat(udiff) as int);
        }
        let ghost lin_hi_obs = lc_zero_obs(lc_obs(upper_terms@));
        cs.enforce_lc_zero(upper_terms);
        let ghost obs_pre_gadget_hi = constraints_obs(cs);
        cs.enforce_nonneg_le(u_var, &udiff);
        proof {
            lemma_field_diff_value(tier_max, self.score, fr_nat(udiff));
        }
        let ghost v43 = cs.values();
        let ghost obs_after_hi = constraints_obs(cs);

        // The commitment public input is bound to the hash constant.
        let neg_commit = fe_neg(&commitment);
        let mut commit_terms: Vec<Term> = Vec::new();
        commit_terms.push(Term { coeff: Coeff::Pos(1), var: c_var });
        commit_terms.push(Term { coeff: Coeff::Elem(neg_commit), var: 0 });
        proof {
            let vals = cs.values();
            assert(vals[0] == 1);
            assert(vals[c_var as int] == fr_nat(commitment));
            lemma_lc_bind2(c_var, neg_commit, vals);
            assert(commit_terms@ == Seq::<Term>::empty().push(
                Term { coeff: Coeff::Pos(1), var: c_var },
            ).push(Term { coeff: Coeff::Elem(neg_commit), var: 0 }));
            assert(lc_val(commit_terms@, vals) == fr_nat(commitment) + fr_nat(neg_commit));
            lemma_commit_binding(fr_nat(commitment), fr_nat(neg_commit));
        }
        let ghost bind_obs = lc_zero_obs(lc_obs(commit_terms@));
        cs.enforce_lc_zero(commit_terms);

        proof {
            assert(cs.public_values() =~= seq![
                self.target_tier as nat,
                fr_nat(self.entity_hash),
                commitment_nat(self.score, fr_nat(self.salt), fr_nat(self.entity_hash)),
            ]);
            if 1 <= t <= 5 {
                assert(i1 + i2 + i3 + i4 + i5 == 1);
                assert(i1 + 2 * i2 + 3 * i3 + 4 * i4 + 5 * i5 == t);
            } else {
                assert(i1 + i2 + i3 + i4 + i5 == 0);
            }
            let commit_v = commitment_nat(self.score, fr_nat(self.salt), fr_nat(self.entity_hash));
            let mn = spec_tier_bounds(t).0;
            let mx = spec_tier_bounds(t).1;
            let ld = fr_sub_val(self.score as nat, mn as nat);
            let ud = fr_sub_val(mx as nat, self.score as nat);
            assert(tier_min == mn && tier_max == mx);
            assert(fr_nat(ldiff) == ld);
            assert(fr_nat(udiff) == ud);
            assert(v15 =~= seq![
                1nat,
                t as nat,
                fr_nat(self.entity_hash),
                commit_v,
                self.score as nat,
                fr_nat(self.salt),
                (if t == 1 { 1nat } else { 0nat }),
                (if t == 2 { 1nat } else { 0nat }),
                (if t == 3 { 1nat } else { 0nat }),
                (if t == 4 { 1nat } else { 0nat }),
                (if t == 5 { 1nat } else { 0nat }),
                mn as nat,
                mx as nat,
                ld,
                ud,
            ]);
            assert(v29 == v15 + low14_bits(ld));
            assert(v43 == v29 + low14_bits(ud));
            assert(cs.values() == v43);
            lemma_tier_values_assembly(*self, v15, v29, v43);
            assert(lc_obs(sum_terms@) =~= seq![(1int, 6int), (1int, 7int), (1int, 8int), (
                1int,
                9int,
            ), (1int, 10int), (-1int, 0int)]) by {
                crate::r1cs::lemma_lc_obs6(Term { coeff: Coeff::Pos(1), var: v1 },
                    Term { coeff: Coeff::Pos(1), var: v2 }, Term { coeff: Coeff::Pos(1), var: v3 },
                    Term { coeff: Coeff::Pos(1), var: v4 }, Term { coeff: Coeff::Pos(1), var: v5 },
                    Term { coeff: Coeff::Neg(1), var: 0 });
                assert(v1 == 6 && v2 == 7 && v3 == 8 && v4 == 9 && v5 == 10);
            }
            assert(lc_obs(weight_terms@) =~= seq![(1int, 6int), (2int, 7int), (3int, 8int), (
                4int,
                9int,
            ), (5int, 10int), (-1int, 1int)]) by {
                crate::r1cs::lemma_lc_obs6(Term { coeff: Coeff::Pos(1), var: v1 },
                    Term { coeff: Coeff::Pos(2), var: v2 }, Term { coeff: Coeff::Pos(3), var: v3 },
                    Term { coeff: Coeff::Pos(4), var: v4 }, Term { coeff: Coeff::Pos(5), var: v5 },
                    Term { coeff: Coeff::Neg(1), var: t_var });
                assert(t_var == 1);
            }
            assert(lc_obs(selmin_terms@) =~= seq![(1int, 11int), (-9500int, 6int), (
                -8500int,
                7int,
            ), (-7000int, 8int), (-5000int, 9int), (0int, 10int)]) by {
                crate::r1cs::lemma_lc_obs6(Term { coeff: Coeff::Pos(1), var: min_var },
                    Term { coeff: Coeff::Neg(tiers::TIER_1_MIN), var: v1 },
                    Term { coeff: Coeff::Neg(tiers::TIER_2_MIN), var: v2 },
                    Term { coeff: Coeff::Neg(tiers::TIER_3_MIN), var: v3 },
                    Term { coeff: Coeff::Neg(tiers::TIER_4_MIN), var: v4 },
                    Term { coeff: Coeff::Neg(tiers::TIER_5_MIN), var: v5 });
                assert(min_var == 11);
            }
            assert(lc_obs(selmax_terms@) =~= seq![(1int, 12int), (-10000int, 6int), (
                -9499int,
                7int,
            ), (-8499int, 8int), (-6999int, 9int), (-4999int, 10int)]) by {
                crate::r1cs::lemma_lc_obs6(Term { coeff: Coeff::Pos(1), var: max_var },
                    Term { coeff: Coeff::Neg(10000), var: v1 },
                    Term { coeff: Coeff::Neg(9499), var: v2 },
                    Term { coeff: Coeff::Neg(8499), var: v3 },
                    Term { coeff: Coeff::Neg(6999), var: v4 },
                    Term { coeff: Coeff::Neg(4999), var: v5 });
                assert(max_var == 12);
            }
            assert(lc_obs(lower_terms@) =~= seq![(1int, 4int), (-1int, 11int), (-1int, 13int)])
                by {
                crate::r1cs::lemma_lc_obs3(Term { coeff: Coeff::Pos(1), var: s_var },
                    Term { coeff: Coeff::Neg(1), var: min_var },
                    Term { coeff: Coeff::Neg(1), var: l_var });
                assert(s_var == 4 && l_var == 13);
            }
            assert(lc_obs(upper_terms@) =~= seq![(1int, 12int), (-1int, 4int), (-1int, 14int)])
                by {
                crate::r1cs::lemma_lc_obs3(Term { coeff: Coeff::Pos(1), var: max_var },
                    Term { coeff: Coeff::Neg(1), var: s_var },
                    Term { coeff: Coeff::Neg(1), var: u_var });
                assert(u_var == 14);
            }
            assert(lc_obs(commit_terms@) =~= seq![(1int, 3int), (fr_neg_val(commit_v), 0int)]) by {
                crate::r1cs::lemma_lc_obs2(Term { coeff: Coeff::Pos(1), var: c_var },
                    Term { coeff: Coeff::Elem(neg_commit), var: 0 });
                assert(c_var == 3);
                assert(fr_nat(neg_commit) as int == fr_neg_val(commit_v));
            }
            assert(obs0 =~= Seq::<(Seq<(int, int)>, Seq<(int, int)>, Seq<(int, int)>)>::empty());
            assert(obs_bools == obs0.push(bool_obs(6)).push(bool_obs(7)).push(bool_obs(8)).push(
                bool_obs(9),
            ).push(bool_obs(10)));
            assert(obs_pre_gadget_lo == obs_bools.push(sum_obs).push(weight_obs).push(
                selmin_obs,
            ).push(selmax_obs).push(lin_lo_obs));
            assert(obs_after_lo == obs_pre_gadget_lo + nonneg_obs(15, 13));
            assert(obs_pre_gadget_hi == obs_after_lo.push(lin_hi_obs));
            assert(obs_after_hi == obs_pre_gadget_hi + nonneg_obs(29, 14));
            assert(constraints_obs(cs) == obs_after_hi.push(bind_obs));
            lemma_tier_obs_assembly(
                *self,
                obs0,
                obs_bools,
                obs_pre_gadget_lo,
                obs_after_lo,
                obs_pre_gadget_hi,
                obs_after_hi,
                constraints_obs(cs),
            );
        }
        Ok(cs)
    }
}

/// A circuit synthesized from a validated threshold statement is accepted
/// by its own constraint system; forcing the witness below the threshold,
/// bypassing validation, yields a rejected system.
pub proof fn lemma_threshold_circuit_acceptance(input: crate::types::ThresholdInput, c: ThresholdCircuit)
    requires
        c.threshold == input.threshold,
        c.score == input.score,
    ensures
        input.is_valid() ==> (c.threshold <= c.score && c.score <= MAX_SCORE),
        c.score < c.threshold ==> !(c.threshold <= c.score && c.score <= MAX_SCORE),
{
}

/// A circuit synthesized from a validated range statement is accepted by
/// its own constraint system, provided the range sits inside the score
/// scale; a witness outside the range, bypassing validation, yields a
/// rejected system.
pub proof fn lemma_range_circuit_acceptance(input: crate::types::RangeInput, c: RangeCircuit)
    requires
        c.min_score == input.min_score,
        c.max_score == input.max_score,
        c.score == input.score,
    ensures
        input.is_valid() && input.max_score <= MAX_SCORE ==> {
            &&& c.min_score <= c.max_score && c.max_score - c.min_score < 16384
            &&& c.min_score <= c.score && c.score - c.min_score < 16384
            &&& c.score <= c.max_score && c.max_score - c.score < 16384
        },
        c.score < c.min_score || c.score > c.max_score ==> !{
            &&& c.min_score <= c.max_score && c.max_score - c.min_score < 16384
            &&& c.min_score <= c.score && c.score - c.min_score < 16384
            &&& c.score <= c.max_score && c.max_score - c.score < 16384
        },
{
}

/// A circuit synthesized from a validated tier statement is accepted by
/// its own constraint system; a witness outside the tier's interval, or a
/// tier outside the table, yields a rejected system.
pub proof fn lemma_tier_circuit_acceptance(input: crate::types::TierInput, c: TierCircuit)
    requires
        c.target_tier == input.target_tier,
        c.score == input.score,
    ensures
        input.is_valid() ==> (1 <= c.target_tier <= 5 && spec_tier_bounds(c.target_tier).0
            <= c.score && c.score <= spec_tier_bounds(c.target_tier).1),
        c.score < spec_tier_bounds(c.target_tier).0 || c.score > spec_tier_bounds(
            c.target_tier,
        ).1 ==> !(1 <= c.target_tier <= 5 && spec_tier_bounds(c.target_tier).0 <= c.score
            && c.score <= spec_tier_bounds(c.target_tier).1),
{
}

/// Synthesis is idempotent: two systems emitted from one threshold
/// statement agree on every variable value, the public-input count, and
/// every constraint.
pub proof fn lemma_threshold_synthesis_idempotent(
    c: ThresholdCircuit,
    s1: ConstraintSystem,
    s2: ConstraintSystem,
)
    requires
        s1.values() == threshold_witness_values(c),
        constraints_obs(s1) == threshold_constraints_obs(c),
        s1.num_public == 3,
        s2.values() == threshold_witness_values(c),
        constraints_obs(s2) == threshold_constraints_obs(c),
        s2.num_public == 3,
    ensures
        s1.values() == s2.values(),
        constraints_obs(s1) == constraints_obs(s2),
        s1.num_public == s2.num_public,
{
}

/// Synthesis is idempotent: two systems emitted from one range statement
/// agree on every variable value, the public-input count, and every
/// constraint.
pub proof fn lemma_range_synthesis_idempotent(
    c: RangeCircuit,
    s1: ConstraintSystem,
    s2: ConstraintSystem,
)
    requires
        s1.values() == range_witness_values(c),
        constraints_obs(s1) == range_constraints_obs(c),
        s1.num_public == 4,
        s2.values() == range_witness_values(c),
        constraints_obs(s2) == range_constraints_obs(c),
        s2.num_public == 4,
    ensures
        s1.values() == s2.values(),
        constraints_obs(s1) == constraints_obs(s2),
        s1.num_public == s2.num_public,
{
}

/// Synthesis is idempotent: two systems emitted from one tier statement
/// agree on every variable value, the public-input count, and every
/// constraint.
pub proof fn lemma_tier_synthesis_idempotent(
    c: TierCircuit,
    s1: ConstraintSystem,
    s2: ConstraintSystem,
)
    requires
        s1.values() == tier_witness_values(c),
        constraints_obs(s1) == tier_constraints_obs(c),
        s1.num_public == 3,
        s2.values() == tier_witness_values(c),
        constraints_obs(s2) == tier_constraints_obs(c),
        s2.num_public == 3,
    ensures
        s1.values() == s2.values(),
        constraints_obs(s1) == constraints_obs(s2),
        s1.num_public == s2.num_public,
{
}

} // verus!
