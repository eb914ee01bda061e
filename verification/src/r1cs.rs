//! A rank-1 constraint system over the BN254 scalar field, together with
//! the witness assignment a circuit synthesizer chooses.
//!
//! A constraint is `A * B = C` for three linear combinations of the
//! allocated variables; the system is accepted when the chosen assignment
//! satisfies every constraint modulo the field order. Coefficients are
//! kept as exact integers (small constants, their negations, or a field
//! constant), so the value of a linear combination is a plain integer and
//! the field sees it modulo the order.

use vstd::prelude::*;
use vstd::arithmetic::div_mod::{
    lemma_add_mod_noop, lemma_basic_div, lemma_div_denominator, lemma_mod_equivalence,
    lemma_mod_mod, lemma_mod_multiples_vanish, lemma_mul_mod_noop_general, lemma_mul_mod_noop_left,
    lemma_small_mod,
};
use vstd::arithmetic::power2::{lemma2_to64, lemma_pow2_pos, lemma_pow2_unfold, pow2};

use crate::field::{fe_add, fe_eq, fe_from_u64, fe_low_u64, fe_mul, fe_neg, fr_nat, fr_order, FieldElement};

verus! {

/// One coefficient of a linear combination.
pub enum Coeff {
    /// A small nonnegative constant.
    Pos(u64),
    /// The negation of a small constant; the field carries it as
    /// `fr_order()` minus the constant.
    Neg(u64),
    /// An arbitrary field constant.
    Elem(FieldElement),
}

/// The signed integer a coefficient stands for.
pub open spec fn coeff_int(c: Coeff) -> int {
    match c {
        Coeff::Pos(m) => m as int,
        Coeff::Neg(m) => -(m as int),
        Coeff::Elem(f) => fr_nat(f) as int,
    }
}

/// One term of a linear combination: a coefficient times a variable.
pub struct Term {
    pub coeff: Coeff,
    pub var: usize,
}

/// The exact integer value of a linear combination under an assignment.
pub open spec fn lc_val(ts: Seq<Term>, vals: Seq<nat>) -> int
    decreases ts.len(),
{
    if ts.len() == 0 {
        0
    } else {
        lc_val(ts.drop_last(), vals) + coeff_int(ts.last().coeff) * (
        vals[ts.last().var as int] as int)
    }
}

/// Every term speaks of a variable below `n`.
pub open spec fn lc_wf(ts: Seq<Term>, n: nat) -> bool {
    forall|i: int| 0 <= i < ts.len() ==> (#[trigger] ts[i]).var < n
}

/// A rank-1 constraint: `A * B = C` over the scalar field.
pub struct Constraint {
    pub a: Vec<Term>,
    pub b: Vec<Term>,
    pub c: Vec<Term>,
}

/// Every linear combination of the constraint speaks of variables below
/// `n`.
pub open spec fn constraint_wf(c: Constraint, n: nat) -> bool {
    lc_wf(c.a@, n) && lc_wf(c.b@, n) && lc_wf(c.c@, n)
}

/// Whether an assignment satisfies one constraint: the product of the
/// first two combinations agrees with the third modulo the field order.
pub open spec fn constraint_holds(c: Constraint, vals: Seq<nat>) -> bool {
    (lc_val(c.a@, vals) * lc_val(c.b@, vals) - lc_val(c.c@, vals)) % (fr_order() as int) == 0
}

/// The observable content of a term: its signed coefficient and its
/// variable. A field-constant coefficient is observed by its canonical
/// value — the finest equality the library itself can decide.
pub open spec fn term_obs(t: Term) -> (int, int) {
    (coeff_int(t.coeff), t.var as int)
}

/// A linear combination, observed term by term.
pub open spec fn lc_obs(ts: Seq<Term>) -> Seq<(int, int)> {
    ts.map(|i: int, t: Term| term_obs(t))
}

/// A constraint, observed: its three linear combinations.
pub open spec fn constraint_obs(c: Constraint) -> (Seq<(int, int)>, Seq<(int, int)>, Seq<
    (int, int),
>) {
    (lc_obs(c.a@), lc_obs(c.b@), lc_obs(c.c@))
}

/// A whole constraint list, observed.
pub open spec fn constraints_obs(cs: ConstraintSystem) -> Seq<
    (Seq<(int, int)>, Seq<(int, int)>, Seq<(int, int)>),
> {
    cs.constraints@.map(|i: int, c: Constraint| constraint_obs(c))
}

/// The observation of a zero-constrained linear combination: the
/// combination itself against the constant one, with an empty product
/// side.
pub open spec fn lc_zero_obs(a: Seq<(int, int)>) -> (Seq<(int, int)>, Seq<(int, int)>, Seq<
    (int, int),
>) {
    (a, seq![(1int, 0int)], Seq::<(int, int)>::empty())
}

/// The observation of the boolean constraint on variable `v`.
pub open spec fn bool_obs(v: int) -> (Seq<(int, int)>, Seq<(int, int)>, Seq<(int, int)>) {
    (seq![(1int, v)], seq![(1int, v), (-1int, 0int)], Seq::<(int, int)>::empty())
}

/// The observations of the constraints the range gadget appends:
/// fourteen boolean constraints on the consecutive bit variables starting
/// at `base`, then the binding of their weighted sum to `var`.
pub open spec fn nonneg_obs(base: int, var: int) -> Seq<
    (Seq<(int, int)>, Seq<(int, int)>, Seq<(int, int)>),
> {
    Seq::new(14, |j: int| bool_obs(base + j)).push(
        lc_zero_obs(Seq::new(14, |j: int| (pow2(j as nat) as int, base + j)).push((-1int, var))),
    )
}

/// The binary digits of the low fourteen bits of a value, least
/// significant first: the witnesses the range gadget allocates.
pub open spec fn low14_bits(x: nat) -> Seq<nat> {
    Seq::new(14, |j: int| (x % 16384) / pow2(j as nat) % 2)
}

/// The observation of a two-term combination built by pushes.
pub proof fn lemma_lc_obs2(t1: Term, t2: Term)
    ensures
        lc_obs(Seq::<Term>::empty().push(t1).push(t2)) =~= seq![term_obs(t1), term_obs(t2)],
{
    let s = Seq::<Term>::empty().push(t1).push(t2);
    assert(lc_obs(s).len() == 2);
    assert(lc_obs(s)[0] == term_obs(s[0]));
    assert(lc_obs(s)[1] == term_obs(s[1]));
}

/// The observation of a three-term combination built by pushes.
pub proof fn lemma_lc_obs3(t1: Term, t2: Term, t3: Term)
    ensures
        lc_obs(Seq::<Term>::empty().push(t1).push(t2).push(t3)) =~= seq![
            term_obs(t1),
            term_obs(t2),
            term_obs(t3),
        ],
{
    let s = Seq::<Term>::empty().push(t1).push(t2).push(t3);
    assert(lc_obs(s).len() == 3);
    assert(lc_obs(s)[0] == term_obs(s[0]));
    assert(lc_obs(s)[1] == term_obs(s[1]));
    assert(lc_obs(s)[2] == term_obs(s[2]));
}

/// The observation of a six-term combination built by pushes.
pub proof fn lemma_lc_obs6(t1: Term, t2: Term, t3: Term, t4: Term, t5: Term, t6: Term)
    ensures
        lc_obs(Seq::<Term>::empty().push(t1).push(t2).push(t3).push(t4).push(t5).push(t6)) =~= seq![
            term_obs(t1),
            term_obs(t2),
            term_obs(t3),
            term_obs(t4),
            term_obs(t5),
            term_obs(t6),
        ],
{
    let s = Seq::<Term>::empty().push(t1).push(t2).push(t3).push(t4).push(t5).push(t6);
    assert(lc_obs(s).len() == 6);
    assert(lc_obs(s)[0] == term_obs(s[0]));
    assert(lc_obs(s)[1] == term_obs(s[1]));
    assert(lc_obs(s)[2] == term_obs(s[2]));
    assert(lc_obs(s)[3] == term_obs(s[3]));
    assert(lc_obs(s)[4] == term_obs(s[4]));
    assert(lc_obs(s)[5] == term_obs(s[5]));
}

/// The value of a one-term linear combination.
pub proof fn lemma_lc_singleton(t: Term, vals: Seq<nat>)
    ensures
        lc_val(seq![t], vals) == coeff_int(t.coeff) * (vals[t.var as int] as int),
{
    let s = seq![t];
    assert(s.len() == 1);
    assert(s.last() == t);
    assert(s.drop_last() =~= Seq::<Term>::empty());
    assert(lc_val(s.drop_last(), vals) == 0);
}

/// Appending a term adds its contribution to the combination's value.
pub proof fn lemma_lc_val_push(s: Seq<Term>, t: Term, vals: Seq<nat>)
    ensures
        lc_val(s.push(t), vals) == lc_val(s, vals) + coeff_int(t.coeff) * (
        vals[t.var as int] as int),
{
    assert(s.push(t).drop_last() =~= s);
    assert(s.push(t).last() == t);
}

/// The value of the three-term combination `x - y - z`.
#[verifier::spinoff_prover]
#[verifier::rlimit(50)]
pub proof fn lemma_lc_diff3(x: usize, y: usize, z: usize, vals: Seq<nat>)
    requires
        x < vals.len(),
        y < vals.len(),
        z < vals.len(),
    ensures
        lc_val(
            Seq::<Term>::empty().push(Term { coeff: Coeff::Pos(1), var: x }).push(
                Term { coeff: Coeff::Neg(1), var: y },
            ).push(Term { coeff: Coeff::Neg(1), var: z }),
            vals,
        ) == (vals[x as int] as int) - (vals[y as int] as int) - (vals[z as int] as int),
{
    let t1 = Term { coeff: Coeff::Pos(1), var: x };
    let t2 = Term { coeff: Coeff::Neg(1), var: y };
    let t3 = Term { coeff: Coeff::Neg(1), var: z };
    let s0 = Seq::<Term>::empty();
    let s1 = s0.push(t1);
    let s2 = s1.push(t2);
    let s3 = s2.push(t3);
    lemma_lc_val_push(s0, t1, vals);
    lemma_lc_val_push(s1, t2, vals);
    lemma_lc_val_push(s2, t3, vals);
    assert(lc_val(s0, vals) == 0);
    let c1 = coeff_int(t1.coeff);
    let c2 = coeff_int(t2.coeff);
    let c3 = coeff_int(t3.coeff);
    assert(c1 == 1 && c2 == -1 && c3 == -1);
    let vx = vals[x as int] as int;
    let vy = vals[y as int] as int;
    let vz = vals[z as int] as int;
    assert(c1 * vx == vx) by (nonlinear_arith)
        requires
            c1 == 1,
    ;
    assert(c2 * vy == -vy) by (nonlinear_arith)
        requires
            c2 == -1,
    ;
    assert(c3 * vz == -vz) by (nonlinear_arith)
        requires
            c3 == -1,
    ;
    assert(lc_val(s1, vals) == lc_val(s0, vals) + c1 * vx);
    assert(lc_val(s2, vals) == lc_val(s1, vals) + c2 * vy);
    assert(lc_val(s3, vals) == lc_val(s2, vals) + c3 * vz);
}

/// The value of the three-term combination `k - y - z`, with the constant
/// carried by the leading one variable.
pub proof fn lemma_lc_const_diff3(k: u64, y: usize, z: usize, vals: Seq<nat>)
    requires
        0 < vals.len(),
        y < vals.len(),
        z < vals.len(),
        vals[0] == 1,
    ensures
        lc_val(
            Seq::<Term>::empty().push(Term { coeff: Coeff::Pos(k), var: 0 }).push(
                Term { coeff: Coeff::Neg(1), var: y },
            ).push(Term { coeff: Coeff::Neg(1), var: z }),
            vals,
        ) == k - (vals[y as int] as int) - (vals[z as int] as int),
{
    let t1 = Term { coeff: Coeff::Pos(k), var: 0 };
    let t2 = Term { coeff: Coeff::Neg(1), var: y };
    let t3 = Term { coeff: Coeff::Neg(1), var: z };
    let s0 = Seq::<Term>::empty();
    let s1 = s0.push(t1);
    let s2 = s1.push(t2);
    let s3 = s2.push(t3);
    lemma_lc_val_push(s0, t1, vals);
    lemma_lc_val_push(s1, t2, vals);
    lemma_lc_val_push(s2, t3, vals);
    assert(lc_val(s0, vals) == 0);
    let c1 = coeff_int(t1.coeff);
    let c2 = coeff_int(t2.coeff);
    let c3 = coeff_int(t3.coeff);
    assert(c1 == k && c2 == -1 && c3 == -1);
    let vy = vals[y as int] as int;
    let vz = vals[z as int] as int;
    assert(c1 * 1 == c1) by (nonlinear_arith);
    assert(c2 * vy == -vy) by (nonlinear_arith)
        requires
            c2 == -1,
    ;
    assert(c3 * vz == -vz) by (nonlinear_arith)
        requires
            c3 == -1,
    ;
    assert(vals[t1.var as int] == 1);
    assert(lc_val(s1, vals) == lc_val(s0, vals) + c1 * 1);
    assert(lc_val(s2, vals) == lc_val(s1, vals) + c2 * vy);
    assert(lc_val(s3, vals) == lc_val(s2, vals) + c3 * vz);
}

/// The value of the two-term combination binding a variable to a field
/// constant.
pub proof fn lemma_lc_bind2(x: usize, c: FieldElement, vals: Seq<nat>)
    requires
        0 < vals.len(),
        x < vals.len(),
        vals[0] == 1,
    ensures
        lc_val(
            Seq::<Term>::empty().push(Term { coeff: Coeff::Pos(1), var: x }).push(
                Term { coeff: Coeff::Elem(c), var: 0 },
            ),
            vals,
        ) == (vals[x as int] as int) + fr_nat(c),
{
    let t1 = Term { coeff: Coeff::Pos(1), var: x };
    let t2 = Term { coeff: Coeff::Elem(c), var: 0 };
    let s0 = Seq::<Term>::empty();
    lemma_lc_val_push(s0, t1, vals);
    lemma_lc_val_push(s0.push(t1), t2, vals);
    assert(lc_val(s0, vals) == 0);
}

/// The value of the six-term combination `c1*v1 + ... + c5*v5 - w`.
pub proof fn lemma_lc_wsum5_neg1(
    c1: u64,
    c2: u64,
    c3: u64,
    c4: u64,
    c5: u64,
    v1: usize,
    v2: usize,
    v3: usize,
    v4: usize,
    v5: usize,
    w: usize,
    vals: Seq<nat>,
)
    requires
        v1 < vals.len(),
        v2 < vals.len(),
        v3 < vals.len(),
        v4 < vals.len(),
        v5 < vals.len(),
        w < vals.len(),
    ensures
        lc_val(
            Seq::<Term>::empty().push(Term { coeff: Coeff::Pos(c1), var: v1 }).push(
                Term { coeff: Coeff::Pos(c2), var: v2 },
            ).push(Term { coeff: Coeff::Pos(c3), var: v3 }).push(
                Term { coeff: Coeff::Pos(c4), var: v4 },
            ).push(Term { coeff: Coeff::Pos(c5), var: v5 }).push(
                Term { coeff: Coeff::Neg(1), var: w },
            ),
            vals,
        ) == c1 * (vals[v1 as int] as int) + c2 * (vals[v2 as int] as int) + c3 * (
        vals[v3 as int] as int) + c4 * (vals[v4 as int] as int) + c5 * (vals[v5 as int] as int) - (
        vals[w as int] as int),
{
    let t1 = Term { coeff: Coeff::Pos(c1), var: v1 };
    let t2 = Term { coeff: Coeff::Pos(c2), var: v2 };
    let t3 = Term { coeff: Coeff::Pos(c3), var: v3 };
    let t4 = Term { coeff: Coeff::Pos(c4), var: v4 };
    let t5 = Term { coeff: Coeff::Pos(c5), var: v5 };
    let t6 = Term { coeff: Coeff::Neg(1), var: w };
    let s0 = Seq::<Term>::empty();
    let s1 = s0.push(t1);
    let s2 = s1.push(t2);
    let s3 = s2.push(t3);
    let s4 = s3.push(t4);
    let s5 = s4.push(t5);
    let s6 = s5.push(t6);
    lemma_lc_val_push(s0, t1, vals);
    lemma_lc_val_push(s1, t2, vals);
    lemma_lc_val_push(s2, t3, vals);
    lemma_lc_val_push(s3, t4, vals);
    lemma_lc_val_push(s4, t5, vals);
    lemma_lc_val_push(s5, t6, vals);
    assert(lc_val(s0, vals) == 0);
    assert(coeff_int(t1.coeff) == c1);
    assert(coeff_int(t2.coeff) == c2);
    assert(coeff_int(t3.coeff) == c3);
    assert(coeff_int(t4.coeff) == c4);
    assert(coeff_int(t5.coeff) == c5);
    assert(coeff_int(t6.coeff) == -1);
    assert(lc_val(s1, vals) == c1 * (vals[v1 as int] as int));
    assert(lc_val(s2, vals) == lc_val(s1, vals) + c2 * (vals[v2 as int] as int));
    assert(lc_val(s3, vals) == lc_val(s2, vals) + c3 * (vals[v3 as int] as int));
    assert(lc_val(s4, vals) == lc_val(s3, vals) + c4 * (vals[v4 as int] as int));
    assert(lc_val(s5, vals) == lc_val(s4, vals) + c5 * (vals[v5 as int] as int));
    assert(lc_val(s6, vals) == lc_val(s5, vals) - (vals[w as int] as int));
}

/// The value of the six-term combination `w - c1*v1 - ... - c5*v5`.
pub proof fn lemma_lc_pos1_negs5(
    c1: u64,
    c2: u64,
    c3: u64,
    c4: u64,
    c5: u64,
    v1: usize,
    v2: usize,
    v3: usize,
    v4: usize,
    v5: usize,
    w: usize,
    vals: Seq<nat>,
)
    requires
        v1 < vals.len(),
        v2 < vals.len(),
        v3 < vals.len(),
        v4 < vals.len(),
        v5 < vals.len(),
        w < vals.len(),
    ensures
        lc_val(
            Seq::<Term>::empty().push(Term { coeff: Coeff::Pos(1), var: w }).push(
                Term { coeff: Coeff::Neg(c1), var: v1 },
            ).push(Term { coeff: Coeff::Neg(c2), var: v2 }).push(
                Term { coeff: Coeff::Neg(c3), var: v3 },
            ).push(Term { coeff: Coeff::Neg(c4), var: v4 }).push(
                Term { coeff: Coeff::Neg(c5), var: v5 },
            ),
            vals,
        ) == (vals[w as int] as int) - c1 * (vals[v1 as int] as int) - c2 * (
        vals[v2 as int] as int) - c3 * (vals[v3 as int] as int) - c4 * (vals[v4 as int] as int)
            - c5 * (vals[v5 as int] as int),
{
    let t1 = Term { coeff: Coeff::Pos(1), var: w };
    let t2 = Term { coeff: Coeff::Neg(c1), var: v1 };
    let t3 = Term { coeff: Coeff::Neg(c2), var: v2 };
    let t4 = Term { coeff: Coeff::Neg(c3), var: v3 };
    let t5 = Term { coeff: Coeff::Neg(c4), var: v4 };
    let t6 = Term { coeff: Coeff::Neg(c5), var: v5 };
    let s0 = Seq::<Term>::empty();
    let s1 = s0.push(t1);
    let s2 = s1.push(t2);
    let s3 = s2.push(t3);
    let s4 = s3.push(t4);
    let s5 = s4.push(t5);
    let s6 = s5.push(t6);
    lemma_lc_val_push(s0, t1, vals);
    lemma_lc_val_push(s1, t2, vals);
    lemma_lc_val_push(s2, t3, vals);
    lemma_lc_val_push(s3, t4, vals);
    lemma_lc_val_push(s4, t5, vals);
    lemma_lc_val_push(s5, t6, vals);
    assert(lc_val(s0, vals) == 0);
    assert(coeff_int(t1.coeff) == 1);
    assert(coeff_int(t2.coeff) == -(c1 as int));
    assert(coeff_int(t3.coeff) == -(c2 as int));
    assert(coeff_int(t4.coeff) == -(c3 as int));
    assert(coeff_int(t5.coeff) == -(c4 as int));
    assert(coeff_int(t6.coeff) == -(c5 as int));
    assert(lc_val(s1, vals) == (vals[w as int] as int));
    assert((-(c1 as int)) * (vals[v1 as int] as int) == -(c1 * (vals[v1 as int] as int)))
        by (nonlinear_arith);
    assert((-(c2 as int)) * (vals[v2 as int] as int) == -(c2 * (vals[v2 as int] as int)))
        by (nonlinear_arith);
    assert((-(c3 as int)) * (vals[v3 as int] as int) == -(c3 * (vals[v3 as int] as int)))
        by (nonlinear_arith);
    assert((-(c4 as int)) * (vals[v4 as int] as int) == -(c4 * (vals[v4 as int] as int)))
        by (nonlinear_arith);
    assert((-(c5 as int)) * (vals[v5 as int] as int) == -(c5 * (vals[v5 as int] as int)))
        by (nonlinear_arith);
    assert(lc_val(s2, vals) == lc_val(s1, vals) - c1 * (vals[v1 as int] as int));
    assert(lc_val(s3, vals) == lc_val(s2, vals) - c2 * (vals[v2 as int] as int));
    assert(lc_val(s4, vals) == lc_val(s3, vals) - c3 * (vals[v3 as int] as int));
    assert(lc_val(s5, vals) == lc_val(s4, vals) - c4 * (vals[v4 as int] as int));
    assert(lc_val(s6, vals) == lc_val(s5, vals) - c5 * (vals[v5 as int] as int));
}

/// A linear combination depends only on the variables it names: two
/// assignments that agree below `n` give it the same value.
proof fn lemma_lc_val_agree(ts: Seq<Term>, v1: Seq<nat>, v2: Seq<nat>, n: nat)
    requires
        lc_wf(ts, n),
        n <= v1.len(),
        n <= v2.len(),
        forall|i: int| 0 <= i < n ==> v1[i] == v2[i],
    ensures
        lc_val(ts, v1) == lc_val(ts, v2),
    decreases ts.len(),
{
    if ts.len() > 0 {
        assert(lc_wf(ts.drop_last(), n));
        lemma_lc_val_agree(ts.drop_last(), v1, v2, n);
        assert(ts.last() == ts[ts.len() - 1]);
    }
}

/// A constraint depends only on the variables it names.
proof fn lemma_constraint_holds_agree(c: Constraint, v1: Seq<nat>, v2: Seq<nat>, n: nat)
    requires
        constraint_wf(c, n),
        n <= v1.len(),
        n <= v2.len(),
        forall|i: int| 0 <= i < n ==> v1[i] == v2[i],
    ensures
        constraint_holds(c, v1) == constraint_holds(c, v2),
{
    lemma_lc_val_agree(c.a@, v1, v2, n);
    lemma_lc_val_agree(c.b@, v1, v2, n);
    lemma_lc_val_agree(c.c@, v1, v2, n);
}

/// The canonical values of a sequence of field elements, in order.
pub open spec fn assignment_values(s: Seq<FieldElement>) -> Seq<nat> {
    s.map(|i: int, f: FieldElement| fr_nat(f))
}

/// An arithmetic constraint system together with the assignment the
/// synthesizer chose for its variables. Variable 0 always carries the
/// constant one; the public input variables follow it; private witnesses
/// come last.
pub struct ConstraintSystem {
    /// The value of every allocated variable, in allocation order.
    pub assignment: Vec<FieldElement>,
    /// How many variables after the leading one are public inputs.
    pub num_public: usize,
    /// The constraints emitted so far.
    pub constraints: Vec<Constraint>,
}

impl ConstraintSystem {
    /// The canonical values of the assignment.
    pub open spec fn values(&self) -> Seq<nat> {
        assignment_values(self.assignment@)
    }

    /// Well-formedness: the constant one leads the assignment, public
    /// inputs fit, and every constraint speaks only of allocated
    /// variables.
    pub open spec fn wf(&self) -> bool {
        &&& 1 + self.num_public <= self.assignment@.len()
        &&& self.values()[0] == 1
        &&& forall|i: int|
            0 <= i < self.constraints@.len() ==> constraint_wf(
                #[trigger] self.constraints@[i],
                self.assignment@.len() as nat,
            )
    }

    /// Whether the chosen assignment satisfies every constraint.
    pub open spec fn spec_satisfied(&self) -> bool {
        forall|i: int|
            0 <= i < self.constraints@.len() ==> constraint_holds(
                #[trigger] self.constraints@[i],
                self.values(),
            )
    }

    /// The values of the public input variables, in allocation order.
    pub open spec fn public_values(&self) -> Seq<nat> {
        self.values().subrange(1, 1 + self.num_public as int)
    }

    /// A fresh system: only the constant-one variable, no constraints.
    pub fn new() -> (r: Self)
        ensures
            r.wf(),
            r.assignment@.len() == 1,
            r.num_public == 0,
            r.constraints@.len() == 0,
            r.spec_satisfied(),
            r.values() =~= seq![1nat],
    {
        let one = fe_from_u64(1);
        let r = ConstraintSystem { assignment: vec![one], num_public: 0, constraints: Vec::new() };
        proof {
            assert(r.values() =~= seq![1nat]);
        }
        r
    }

    /// Allocate a public input variable holding `f`. Public inputs must
    /// all be allocated before any private witness.
    pub fn alloc_public(&mut self, f: FieldElement) -> (idx: usize)
        requires
            old(self).wf(),
            old(self).assignment@.len() == 1 + old(self).num_public,
        ensures
            final(self).wf(),
            idx == old(self).assignment@.len(),
            final(self).assignment@.len() == 1 + final(self).num_public,
            final(self).num_public == old(self).num_public + 1,
            final(self).constraints@ == old(self).constraints@,
            final(self).values() =~= old(self).values().push(fr_nat(f)),
            final(self).spec_satisfied() <==> old(self).spec_satisfied(),
    {
        let idx = self.assignment.len();
        self.assignment.push(f);
        self.num_public = self.num_public + 1;
        proof {
            assert(self.values() =~= old(self).values().push(fr_nat(f)));
            self.lemma_extension_preserves(*old(self));
            assert(self.values()[0] == 1);
        }
        idx
    }

    /// Allocate a private witness variable holding `f`.
    pub fn alloc_witness(&mut self, f: FieldElement) -> (idx: usize)
        requires
            old(self).wf(),
        ensures
            final(self).wf(),
            idx == old(self).assignment@.len(),
            final(self).assignment@.len() == old(self).assignment@.len() + 1,
            final(self).num_public == old(self).num_public,
            final(self).constraints@ == old(self).constraints@,
            final(self).values() =~= old(self).values().push(fr_nat(f)),
            final(self).spec_satisfied() <==> old(self).spec_satisfied(),
    {
        let idx = self.assignment.len();
        self.assignment.push(f);
        proof {
            assert(self.values() =~= old(self).values().push(fr_nat(f)));
            self.lemma_extension_preserves(*old(self));
            assert(self.values()[0] == 1);
        }
        idx
    }

    /// Extending the assignment neither breaks nor repairs any existing
    /// constraint.
    proof fn lemma_extension_preserves(&self, prev: Self)
        requires
            prev.wf(),
            self.constraints@ == prev.constraints@,
            self.values() =~= prev.values().push(self.values().last()),
        ensures
            self.spec_satisfied() <==> prev.spec_satisfied(),
            forall|i: int|
                0 <= i < self.constraints@.len() ==> constraint_wf(
                    #[trigger] self.constraints@[i],
                    self.assignment@.len() as nat,
                ),
    {
        let n = prev.assignment@.len() as nat;
        assert forall|i: int| 0 <= i < self.constraints@.len() implies (constraint_holds(
            #[trigger] self.constraints@[i],
            self.values(),
        ) == constraint_holds(self.constraints@[i], prev.values())) by {
            lemma_constraint_holds_agree(self.constraints@[i], self.values(), prev.values(), n);
        }
        assert forall|i: int| 0 <= i < self.constraints@.len() implies constraint_wf(
            #[trigger] self.constraints@[i],
            self.assignment@.len() as nat,
        ) by {
            assert(constraint_wf(self.constraints@[i], n));
            assert(self.assignment@.len() >= n);
        }
    }

    /// Add the constraint `A * B = C`.
    fn push_constraint(&mut self, c: Constraint)
        requires
            old(self).wf(),
            constraint_wf(c, old(self).assignment@.len() as nat),
        ensures
            final(self).wf(),
            final(self).assignment@ == old(self).assignment@,
            final(self).num_public == old(self).num_public,
            final(self).constraints@ == old(self).constraints@.push(c),
            final(self).spec_satisfied() <==> (old(self).spec_satisfied() && constraint_holds(
                c,
                final(self).values(),
            )),
    {
        let ghost prev = *self;
        self.constraints.push(c);
        proof {
            assert(self.values() =~= prev.values());
            assert forall|i: int| 0 <= i < self.constraints@.len() implies constraint_wf(
                #[trigger] self.constraints@[i],
                self.assignment@.len() as nat,
            ) by {
                if i < prev.constraints@.len() {
                    assert(constraint_wf(prev.constraints@[i], self.assignment@.len() as nat));
                }
            }
            if prev.spec_satisfied() && constraint_holds(c, self.values()) {
                assert forall|i: int| 0 <= i < self.constraints@.len() implies constraint_holds(
                    #[trigger] self.constraints@[i],
                    self.values(),
                ) by {
                    if i < prev.constraints@.len() {
                        assert(constraint_holds(prev.constraints@[i], prev.values()));
                    }
                }
            }
            if self.spec_satisfied() {
                assert forall|i: int| 0 <= i < prev.constraints@.len() implies constraint_holds(
                    #[trigger] prev.constraints@[i],
                    prev.values(),
                ) by {
                    assert(self.constraints@[i] == prev.constraints@[i]);
                    assert(constraint_holds(self.constraints@[i], self.values()));
                }
                let last = self.constraints@.len() - 1;
                assert(self.constraints@[last] == c);
                assert(constraint_holds(self.constraints@[last], self.values()));
            }
        }
    }

    /// Constrain a linear combination to zero.
    ///
    /// The appended constraint holds exactly when the combination's value
    /// vanishes modulo the field order.
    pub fn enforce_lc_zero(&mut self, terms: Vec<Term>)
        requires
            old(self).wf(),
            lc_wf(terms@, old(self).assignment@.len() as nat),
        ensures
            final(self).wf(),
            final(self).assignment@ == old(self).assignment@,
            final(self).num_public == old(self).num_public,
            final(self).spec_satisfied() <==> (old(self).spec_satisfied() && lc_val(
                terms@,
                final(self).values(),
            ) % (fr_order() as int) == 0),
            final(self).constraints@.len() == old(self).constraints@.len() + 1,
            final(self).constraints@.subrange(0, old(self).constraints@.len() as int) =~= old(
                self,
            ).constraints@,
            constraint_obs(final(self).constraints@.last()) == lc_zero_obs(lc_obs(terms@)),
            constraints_obs(*final(self)) =~= constraints_obs(*old(self)).push(
                lc_zero_obs(lc_obs(terms@)),
            ),
    {
        let ghost tseq = terms@;
        let one_term = Term { coeff: Coeff::Pos(1), var: 0 };
        let mut b: Vec<Term> = Vec::new();
        b.push(one_term);
        let c: Vec<Term> = Vec::new();
        let cons = Constraint { a: terms, b, c };
        proof {
            assert(cons.b@ =~= seq![Term { coeff: Coeff::Pos(1), var: 0 }]);
            assert(lc_wf(cons.b@, old(self).assignment@.len() as nat)) by {
                assert(cons.b@[0].var == 0);
            }
            lemma_lc_singleton(Term { coeff: Coeff::Pos(1), var: 0 }, self.values());
            assert(lc_val(cons.b@, self.values()) == 1) by {
                assert(self.values()[0] == 1);
            }
            assert(lc_val(cons.c@, self.values()) == 0);
            assert(constraint_holds(cons, self.values()) <==> lc_val(tseq, self.values()) % (
            fr_order() as int) == 0) by {
                assert(lc_val(cons.a@, self.values()) * 1 == lc_val(cons.a@, self.values()));
            }
        }
        self.push_constraint(cons);
        proof {
            assert(self.constraints@.last() == cons);
            assert(self.constraints@.subrange(0, old(self).constraints@.len() as int) =~= old(
                self,
            ).constraints@);
            assert(lc_obs(cons.b@) =~= seq![(1int, 0int)]) by {
                assert(cons.b@.len() == 1);
                assert(cons.b@[0] == Term { coeff: Coeff::Pos(1), var: 0 });
            }
            assert(lc_obs(cons.c@) =~= Seq::<(int, int)>::empty());
            assert(constraint_obs(cons) == lc_zero_obs(lc_obs(tseq)));
            assert(constraints_obs(*self) =~= constraints_obs(*old(self)).push(
                lc_zero_obs(lc_obs(tseq)),
            )) by {
                assert(constraints_obs(*self).len() == constraints_obs(*old(self)).len() + 1);
                assert forall|i: int| 0 <= i < constraints_obs(*self).len() implies constraints_obs(
                    *self,
                )[i] == constraints_obs(*old(self)).push(lc_zero_obs(lc_obs(tseq)))[i] by {
                    assert(constraints_obs(*self)[i] == constraint_obs(self.constraints@[i]));
                    if i < old(self).constraints@.len() {
                        assert(self.constraints@[i] == old(self).constraints@[i]);
                        assert(constraints_obs(*old(self))[i] == constraint_obs(
                            old(self).constraints@[i],
                        ));
                    } else {
                        assert(self.constraints@[i] == self.constraints@.last());
                    }
                }
            }
        }
    }

    /// Constrain the variable `var` to be boolean: `v * (v - 1) = 0`.
    ///
    /// The appended constraint holds exactly when the product vanishes
    /// modulo the field order, which a zero or one value always gives.
    pub fn enforce_boolean(&mut self, var: usize)
        requires
            old(self).wf(),
            var < old(self).assignment@.len(),
        ensures
            final(self).wf(),
            final(self).assignment@ == old(self).assignment@,
            final(self).num_public == old(self).num_public,
            final(self).spec_satisfied() <==> (old(self).spec_satisfied() && ((final(self).values()[var as int] as int)
                * ((final(self).values()[var as int] as int) - 1)) % (fr_order() as int) == 0),
            final(self).constraints@.len() == old(self).constraints@.len() + 1,
            final(self).constraints@.subrange(0, old(self).constraints@.len() as int) =~= old(
                self,
            ).constraints@,
            constraint_obs(final(self).constraints@.last()) == bool_obs(var as int),
            constraints_obs(*final(self)) =~= constraints_obs(*old(self)).push(bool_obs(var as int)),
    {
        let mut a: Vec<Term> = Vec::new();
        a.push(Term { coeff: Coeff::Pos(1), var });
        let mut b: Vec<Term> = Vec::new();
        b.push(Term { coeff: Coeff::Pos(1), var });
        b.push(Term { coeff: Coeff::Neg(1), var: 0 });
        let c: Vec<Term> = Vec::new();
        let cons = Constraint { a, b, c };
        proof {
            let vals = self.values();
            let v = vals[var as int] as int;
            assert(cons.a@ =~= seq![Term { coeff: Coeff::Pos(1), var }]);
            lemma_lc_singleton(Term { coeff: Coeff::Pos(1), var }, vals);
            assert(lc_val(cons.a@, vals) == v);
            assert(lc_val(cons.b@, vals) == v - 1) by {
                assert(cons.b@.len() == 2);
                assert(cons.b@.last() == Term { coeff: Coeff::Neg(1), var: 0 });
                assert(cons.b@.drop_last() =~= seq![Term { coeff: Coeff::Pos(1), var }]);
                lemma_lc_singleton(Term { coeff: Coeff::Pos(1), var }, vals);
                assert(lc_val(cons.b@.drop_last(), vals) == v);
                assert(lc_val(cons.b@, vals) == lc_val(cons.b@.drop_last(), vals) + coeff_int(
                    cons.b@.last().coeff,
                ) * (vals[cons.b@.last().var as int] as int));
                assert(coeff_int(cons.b@.last().coeff) == -1);
                assert(vals[cons.b@.last().var as int] == 1);
            }
            assert(lc_val(cons.c@, vals) == 0);
        }
        self.push_constraint(cons);
        proof {
            assert(self.constraints@.last() == cons);
            assert(self.constraints@.subrange(0, old(self).constraints@.len() as int) =~= old(
                self,
            ).constraints@);
            assert(lc_obs(cons.a@) =~= seq![(1int, var as int)]) by {
                assert(cons.a@.len() == 1);
                assert(cons.a@[0] == Term { coeff: Coeff::Pos(1), var });
            }
            assert(lc_obs(cons.b@) =~= seq![(1int, var as int), (-1int, 0int)]) by {
                assert(cons.b@.len() == 2);
                assert(cons.b@[0] == Term { coeff: Coeff::Pos(1), var });
                assert(cons.b@[1] == Term { coeff: Coeff::Neg(1), var: 0 });
            }
            assert(lc_obs(cons.c@) =~= Seq::<(int, int)>::empty());
            assert(constraint_obs(cons) == bool_obs(var as int));
            assert(constraints_obs(*self) =~= constraints_obs(*old(self)).push(
                bool_obs(var as int),
            )) by {
                assert(constraints_obs(*self).len() == constraints_obs(*old(self)).len() + 1);
                assert forall|i: int| 0 <= i < constraints_obs(*self).len() implies constraints_obs(
                    *self,
                )[i] == constraints_obs(*old(self)).push(bool_obs(var as int))[i] by {
                    assert(constraints_obs(*self)[i] == constraint_obs(self.constraints@[i]));
                    if i < old(self).constraints@.len() {
                        assert(self.constraints@[i] == old(self).constraints@[i]);
                        assert(constraints_obs(*old(self))[i] == constraint_obs(
                            old(self).constraints@[i],
                        ));
                    } else {
                        assert(self.constraints@[i] == self.constraints@.last());
                    }
                }
            }
        }
    }

    /// Bounded non-negativity gadget: decompose the value held by `var`
    /// into fourteen boolean bits and constrain their weighted sum to
    /// equal it. The appended constraints hold exactly when that value is
    /// below `2^14 = 16384`, which proves it encodes no field-negative
    /// difference.
    pub fn enforce_nonneg_le(&mut self, var: usize, value: &FieldElement)
        requires
            old(self).wf(),
            var < old(self).assignment@.len(),
            fr_nat(*value) == old(self).values()[var as int],
            fr_nat(*value) < fr_order(),
        ensures
            final(self).wf(),
            final(self).num_public == old(self).num_public,
            old(self).values().is_prefix_of(final(self).values()),
            final(self).values().len() >= old(self).values().len(),
            forall|j: int|
                0 <= j < old(self).values().len() ==> final(self).values()[j] == old(
                    self,
                ).values()[j],
            final(self).values() =~= old(self).values() + low14_bits(fr_nat(*value)),
            constraints_obs(*final(self)) =~= constraints_obs(*old(self)) + nonneg_obs(
                old(self).assignment@.len() as int,
                var as int,
            ),
            final(self).spec_satisfied() <==> (old(self).spec_satisfied() && fr_nat(*value) < 16384),
    {
        let ghost whole = fr_nat(*value);
        let low = fe_low_u64(value);
        let low14: u64 = low % 16384;
        proof {
            lemma2_to64();
            lemma_mod_mod(whole as int, 16384, 0x4000000000000);
            assert(16384 * 0x4000000000000 == 0x10000000000000000);
            assert(low14 as nat == whole % 16384) by {
                assert(low as nat == whole % 0x10000000000000000nat);
            }
        }
        // Phase one: the binary digits of `low14`, least significant first.
        let mut bits: Vec<u64> = Vec::new();
        let mut n: u64 = low14;
        let mut i: usize = 0;
        while i < 14
            invariant
                i <= 14,
                bits@.len() == i,
                forall|j: int| 0 <= j < i ==> #[trigger] bits@[j] <= 1,
                forall|j: int|
                    0 <= j < i ==> #[trigger] bits@[j] as nat == (low14 as nat) / pow2(j as nat)
                        % 2,
                n as int == (low14 as int) / (pow2(i as nat) as int),
                low14 as int == bits_sum(bits@) + (n as int) * (pow2(i as nat) as int),
            decreases 14 - i,
        {
            let b = n % 2;
            let ghost prev_bits = bits@;
            let ghost prev_n = n as int;
            bits.push(b);
            n = n / 2;
            i = i + 1;
            proof {
                lemma_pow2_unfold(i as nat);
                assert(bits@.drop_last() =~= prev_bits);
                assert(bits_sum(bits@) == bits_sum(prev_bits) + (b as int) * (pow2(
                    (i - 1) as nat,
                ) as int));
                assert(prev_n == 2 * (n as int) + (b as int));
                assert((2 * (n as int) + (b as int)) * (pow2((i - 1) as nat) as int) == (
                n as int) * (pow2(i as nat) as int) + (b as int) * (pow2((i - 1) as nat) as int))
                    by (nonlinear_arith)
                    requires
                        pow2(i as nat) == 2 * pow2((i - 1) as nat),
                ;
                lemma_pow2_pos((i - 1) as nat);
                lemma_div_denominator(low14 as int, pow2((i - 1) as nat) as int, 2);
                assert(pow2((i - 1) as nat) as int * 2 == pow2(i as nat) as int);
                assert(bits@[i - 1] as nat == (low14 as nat) / pow2((i - 1) as nat) % 2) by {
                    assert(bits@[i - 1] == b);
                    assert(prev_n == (low14 as int) / (pow2((i - 1) as nat) as int));
                    assert(b as int == prev_n % 2);
                }
            }
        }
        proof {
            lemma2_to64();
            assert(pow2(14) == 16384);
            assert(i == 14);
            assert(low14 as int == bits_sum(bits@) + (n as int) * (pow2(14) as int));
            assert(n == 0) by {
                assert(n as int == (low14 as int) / 16384);
                lemma_basic_div(low14 as int, 16384);
            }
            assert(bits_sum(bits@) == low14 as int);
            assert(low14_bits(whole).len() == 14);
            assert forall|j: int| 0 <= j < 14 implies bits@[j] as nat == low14_bits(whole)[j] by {
                assert(low14 as nat == whole % 16384);
            }
        }
        // Phase two: allocate the bits as witnesses, each constrained
        // boolean, and constrain their weighted sum to the value.
        let ghost base = *self;
        let mut terms: Vec<Term> = Vec::new();
        let mut coef: u64 = 1;
        let mut k: usize = 0;
        while k < 14
            invariant
                k <= 14,
                bits@.len() == 14,
                forall|j: int| 0 <= j < 14 ==> #[trigger] bits@[j] <= 1,
                self.wf(),
                self.num_public == base.num_public,
                base.wf(),
                self.assignment@.len() == base.assignment@.len() + k,
                base.values().is_prefix_of(self.values()),
                coef as int == pow2(k as nat) as int,
                terms@.len() == k,
                forall|j: int|
                    0 <= j < k ==> (#[trigger] terms@[j]).var == base.assignment@.len() + j
                        && terms@[j].coeff == Coeff::Pos(pow2(j as nat) as u64)
                        && pow2(j as nat) <= 16384,
                forall|j: int|
                    0 <= j < k ==> self.values()[base.assignment@.len() + j] == bits@[j] as nat,
                constraints_obs(*self) =~= constraints_obs(base) + Seq::new(
                    k as nat,
                    |j: int| bool_obs(base.assignment@.len() + j),
                ),
                self.spec_satisfied() <==> base.spec_satisfied(),
            decreases 14 - k,
        {
            let bit_fe = fe_from_u64(bits[k]);
            let ghost before = *self;
            let bvar = self.alloc_witness(bit_fe);
            let ghost mid = *self;
            self.enforce_boolean(bvar);
            proof {
                lemma2_to64();
                lemma_pow2_unfold((k + 1) as nat);
                let v = self.values()[bvar as int] as int;
                assert(v == bits@[k as int]);
                assert((v * (v - 1)) % (fr_order() as int) == 0) by {
                    assert(v == 0 || v == 1);
                }
                assert(base.values().is_prefix_of(self.values())) by {
                    assert(before.values().is_prefix_of(mid.values()));
                }
                let ghost rhs = constraints_obs(base) + Seq::new(
                    (k + 1) as nat,
                    |j: int| bool_obs(base.assignment@.len() + j),
                );
                assert(mid.constraints@ == before.constraints@);
                assert(self.constraints@.subrange(0, mid.constraints@.len() as int) =~= mid
                    .constraints@);
                assert(constraint_obs(self.constraints@.last()) == bool_obs(bvar as int));
                assert(bvar == base.assignment@.len() + k);
                assert(constraints_obs(before).len() == before.constraints@.len());
                assert(constraints_obs(base).len() == base.constraints@.len());
                assert(before.constraints@.len() == base.constraints@.len() + k) by {
                    assert(constraints_obs(before).len() == constraints_obs(base).len() + k);
                }
                assert(constraints_obs(*self).len() == rhs.len());
                assert forall|i: int| 0 <= i < rhs.len() implies constraints_obs(*self)[i] == rhs[i]
                    by {
                    assert(constraints_obs(*self)[i] == constraint_obs(self.constraints@[i]));
                    if i < before.constraints@.len() {
                        assert(self.constraints@[i] == before.constraints@[i]);
                        assert(constraints_obs(before)[i] == constraint_obs(
                            before.constraints@[i],
                        ));
                        assert(constraints_obs(before)[i] == (constraints_obs(base) + Seq::new(
                            k as nat,
                            |j: int| bool_obs(base.assignment@.len() + j),
                        ))[i]);
                        assert(rhs[i] == (constraints_obs(base) + Seq::new(
                            k as nat,
                            |j: int| bool_obs(base.assignment@.len() + j),
                        ))[i]);
                    } else {
                        assert(i == before.constraints@.len());
                        assert(self.constraints@[i] == self.constraints@.last());
                        assert(rhs[i] == bool_obs(base.assignment@.len() + k));
                    }
                }
                assert(constraints_obs(*self) =~= rhs);
            }
            terms.push(Term { coeff: Coeff::Pos(coef), var: bvar });
            coef = coef * 2;
            k = k + 1;
        }
        // The weighted sum of the bits equals the constrained value.
        let ghost pre = *self;
        terms.push(Term { coeff: Coeff::Neg(1), var });
        proof {
            lemma_lc_val_of_bits(terms@.drop_last(), bits@, self.values(),
                base.assignment@.len() as int);
            assert(terms@.drop_last().len() == 14);
            assert(bits@.subrange(0, 14) =~= bits@);
            assert(lc_val(terms@, self.values()) == bits_sum(bits@) - (self.values()[
                var as int] as int)) by {
                assert(terms@.last().var == var);
                assert(coeff_int(terms@.last().coeff) == -1);
            }
            assert(self.values()[var as int] == whole) by {
                assert(base.values().is_prefix_of(self.values()));
                assert(base.values()[var as int] == whole);
            }
            assert(lc_wf(terms@, self.assignment@.len() as nat));
        }
        self.enforce_lc_zero(terms);
        proof {
            let p = fr_order() as int;
            let s = low14 as int;
            if whole < 16384 {
                lemma_small_mod(whole, 16384);
                assert(s == whole as int);
                assert((s - whole) % p == 0);
            } else {
                assert((s - whole) % p != 0) by {
                    lemma_mod_equivalence(s, whole as int, p);
                    lemma_small_mod(low14 as nat, fr_order());
                    lemma_small_mod(whole, fr_order());
                    assert(s != whole as int) by {
                        assert(low14 < 16384 <= whole);
                    }
                }
            }
            assert forall|j: int| 0 <= j < old(self).values().len() implies self.values()[j]
                == old(self).values()[j] by {
                assert(old(self).values() =~= self.values().subrange(
                    0,
                    old(self).values().len() as int,
                ));
            }
            let base_len = base.assignment@.len() as int;
            assert(self.values() =~= old(self).values() + low14_bits(whole)) by {
                assert(self.values().len() == old(self).values().len() + 14);
                assert(forall|j: int|
                    0 <= j < 14 ==> self.values()[base_len + j] == #[trigger] low14_bits(whole)[j]);
            }
            assert(lc_obs(terms@) =~= Seq::new(14, |j: int| (pow2(j as nat) as int, base_len + j))
                .push((-1int, var as int))) by {
                assert(terms@.len() == 15);
                assert forall|j: int| 0 <= j < 14 implies lc_obs(terms@)[j] == (
                    pow2(j as nat) as int,
                    base_len + j,
                ) by {
                    assert(terms@[j].coeff == Coeff::Pos(pow2(j as nat) as u64));
                    assert(pow2(j as nat) <= 16384);
                    assert((pow2(j as nat) as u64) as int == pow2(j as nat) as int);
                }
                assert(terms@[14] == Term { coeff: Coeff::Neg(1), var });
                assert(lc_obs(terms@).len() == 15);
                assert(lc_obs(terms@)[14] == term_obs(terms@[14]));
                assert(term_obs(terms@[14]) == (-1int, var as int));
            }
            let ghost gadget = nonneg_obs(base_len, var as int);
            let ghost rhs2 = constraints_obs(*old(self)) + gadget;
            assert(base == *old(self));
            assert(self.constraints@.subrange(0, pre.constraints@.len() as int) =~= pre
                .constraints@);
            assert(constraint_obs(self.constraints@.last()) == lc_zero_obs(lc_obs(terms@)));
            assert(lc_obs(terms@) == Seq::new(
                14,
                |j: int| (pow2(j as nat) as int, base_len + j),
            ).push((-1int, var as int)));
            assert(gadget.len() == 15);
            assert(constraints_obs(pre).len() == pre.constraints@.len());
            assert(constraints_obs(base).len() == base.constraints@.len());
            assert(pre.constraints@.len() == base.constraints@.len() + 14) by {
                assert(constraints_obs(pre).len() == constraints_obs(base).len() + 14);
            }
            assert(constraints_obs(*self).len() == rhs2.len());
            assert forall|i: int| 0 <= i < rhs2.len() implies constraints_obs(*self)[i] == rhs2[i]
                by {
                assert(constraints_obs(*self)[i] == constraint_obs(self.constraints@[i]));
                let bc = base.constraints@.len() as int;
                if i < pre.constraints@.len() {
                    assert(self.constraints@[i] == pre.constraints@[i]);
                    assert(constraints_obs(pre)[i] == constraint_obs(pre.constraints@[i]));
                    assert(constraints_obs(pre)[i] == (constraints_obs(base) + Seq::new(
                        14,
                        |j: int| bool_obs(base_len + j),
                    ))[i]);
                    if i < bc {
                        assert(rhs2[i] == constraints_obs(base)[i]);
                    } else {
                        assert(rhs2[i] == gadget[i - bc]);
                        assert(gadget[i - bc] == bool_obs(base_len + (i - bc)));
                    }
                } else {
                    assert(i == pre.constraints@.len());
                    assert(self.constraints@[i] == self.constraints@.last());
                    assert(rhs2[i] == gadget[14]);
                    assert(gadget[14] == lc_zero_obs(Seq::new(
                        14,
                        |j: int| (pow2(j as nat) as int, base_len + j),
                    ).push((-1int, var as int))));
                }
            }
            assert(constraints_obs(*self) =~= rhs2);
        }
    }

    /// Evaluate one linear combination in the field.
    fn eval_lc(terms: &Vec<Term>, assignment: &Vec<FieldElement>) -> (r: FieldElement)
        requires
            lc_wf(terms@, assignment@.len() as nat),
        ensures
            fr_nat(r) as int == lc_val(terms@, assignment_values(assignment@)) % (
            fr_order() as int),
    {
        let ghost vals = assignment_values(assignment@);
        let ghost p = fr_order() as int;
        let mut acc = fe_from_u64(0);
        let mut i: usize = 0;
        proof {
            assert(terms@.subrange(0, 0) =~= Seq::<Term>::empty());
            lemma_small_mod(0, fr_order());
        }
        while i < terms.len()
            invariant
                lc_wf(terms@, assignment@.len() as nat),
                i <= terms@.len(),
                vals == assignment_values(assignment@),
                p == fr_order() as int,
                fr_nat(acc) as int == lc_val(terms@.subrange(0, i as int), vals) % p,
            decreases terms@.len() - i,
        {
            let t = &terms[i];
            proof {
                assert(terms@[i as int].var < assignment@.len());
            }
            let v = &assignment[t.var];
            let ghost val = vals[t.var as int] as int;
            let term_fe = match &t.coeff {
                Coeff::Pos(m) => fe_mul(&fe_from_u64(*m), v),
                Coeff::Neg(m) => fe_mul(&fe_neg(&fe_from_u64(*m)), v),
                Coeff::Elem(f) => fe_mul(f, v),
            };
            proof {
                assert(fr_nat(*v) == vals[t.var as int]);
                match &t.coeff {
                    Coeff::Pos(m) => {
                        assert(fr_nat(term_fe) as int == (coeff_int(t.coeff) * val) % p);
                    },
                    Coeff::Neg(m) => {
                        let mi = (*m) as int;
                        let pm = (p - mi) % p;
                        assert(fr_nat(term_fe) as int == (pm * val) % p);
                        lemma_mul_mod_noop_left(p - mi, val, p);
                        assert(((p - mi) * val) % p == (-mi * val) % p) by {
                            lemma_mod_multiples_vanish(val, -mi * val, p);
                            assert((p - mi) * val == val * p + (-mi * val)) by (nonlinear_arith);
                        }
                    },
                    Coeff::Elem(f) => {
                        assert(fr_nat(term_fe) as int == (coeff_int(t.coeff) * val) % p);
                    },
                }
                assert(fr_nat(term_fe) as int == (coeff_int(t.coeff) * val) % p);
            }
            let ghost prev_acc = fr_nat(acc) as int;
            acc = fe_add(&acc, &term_fe);
            i = i + 1;
            proof {
                let pre = terms@.subrange(0, i - 1);
                let cur = terms@.subrange(0, i as int);
                assert(cur.drop_last() =~= pre);
                assert(cur.last() == terms@[i - 1]);
                assert(lc_val(cur, vals) == lc_val(pre, vals) + coeff_int(terms@[i - 1].coeff) * (
                vals[terms@[i - 1].var as int] as int));
                lemma_add_mod_noop(lc_val(pre, vals), coeff_int(terms@[i - 1].coeff) * val, p);
            }
        }
        proof {
            assert(terms@.subrange(0, terms@.len() as int) =~= terms@);
        }
        acc
    }

    /// Whether the chosen assignment satisfies one constraint.
    fn check_constraint(cons: &Constraint, assignment: &Vec<FieldElement>) -> (r: bool)
        requires
            constraint_wf(*cons, assignment@.len() as nat),
        ensures
            r == constraint_holds(*cons, assignment_values(assignment@)),
    {
        let ghost vals = assignment_values(assignment@);
        let ghost p = fr_order() as int;
        let av = Self::eval_lc(&cons.a, assignment);
        let bv = Self::eval_lc(&cons.b, assignment);
        let cv = Self::eval_lc(&cons.c, assignment);
        let ab = fe_mul(&av, &bv);
        let r = fe_eq(&ab, &cv);
        proof {
            let la = lc_val(cons.a@, vals);
            let lb = lc_val(cons.b@, vals);
            let lc = lc_val(cons.c@, vals);
            lemma_mul_mod_noop_general(la, lb, p);
            assert(fr_nat(ab) as int == (la * lb) % p);
            lemma_mod_equivalence(la * lb, lc, p);
            vstd::arithmetic::div_mod::lemma_mod_twice(lc, p);
            assert(r <==> ((la * lb) % p == lc % p));
        }
        r
    }

    /// Whether the synthesized assignment satisfies every constraint: the
    /// executable face of `spec_satisfied`.
    pub fn is_satisfied(&self) -> (r: bool)
        requires
            self.wf(),
        ensures
            r == self.spec_satisfied(),
    {
        let mut i: usize = 0;
        while i < self.constraints.len()
            invariant
                self.wf(),
                i <= self.constraints@.len(),
                forall|j: int|
                    0 <= j < i ==> constraint_holds(#[trigger] self.constraints@[j], self.values()),
            decreases self.constraints@.len() - i,
        {
            let ok = Self::check_constraint(&self.constraints[i], &self.assignment);
            if !ok {
                return false;
            }
            i = i + 1;
        }
        true
    }

    /// The values of the public input variables, cloned in allocation
    /// order.
    pub fn public_inputs(&self) -> (r: Vec<FieldElement>)
        requires
            self.wf(),
        ensures
            assignment_values(r@) =~= self.public_values(),
    {
        let mut r: Vec<FieldElement> = Vec::new();
        let mut i: usize = 0;
        while i < self.num_public
            invariant
                self.wf(),
                i <= self.num_public,
                r@.len() == i,
                forall|j: int|
                    0 <= j < i ==> fr_nat(#[trigger] r@[j]) == self.values()[j + 1],
            decreases self.num_public - i,
        {
            r.push(self.assignment[i + 1].clone());
            i = i + 1;
        }
        proof {
            assert(assignment_values(r@) =~= self.public_values());
        }
        r
    }
}

/// The weighted binary sum of a bit string: bit `j` counts `2^j`.
pub open spec fn bits_sum(bs: Seq<u64>) -> int
    decreases bs.len(),
{
    if bs.len() == 0 {
        0
    } else {
        bits_sum(bs.drop_last()) + (bs.last() as int) * (pow2((bs.len() - 1) as nat) as int)
    }
}

/// The linear combination built from bit variables evaluates to the
/// weighted binary sum of the bits.
proof fn lemma_lc_val_of_bits(ts: Seq<Term>, bits: Seq<u64>, vals: Seq<nat>, first: int)
    requires
        0 <= first,
        ts.len() <= bits.len(),
        first + bits.len() <= vals.len(),
        forall|j: int|
            0 <= j < ts.len() ==> (#[trigger] ts[j]).var == first + j && ts[j].coeff == Coeff::Pos(
                pow2(j as nat) as u64,
            ) && pow2(j as nat) <= 16384,
        forall|j: int| 0 <= j < ts.len() ==> vals[first + j] == bits[j] as nat,
    ensures
        lc_val(ts, vals) == bits_sum(bits.subrange(0, ts.len() as int)),
    decreases ts.len(),
{
    if ts.len() == 0 {
        assert(bits.subrange(0, 0) =~= Seq::<u64>::empty());
    } else {
        let m = ts.len() - 1;
        assert forall|j: int| 0 <= j < ts.drop_last().len() implies (#[trigger] ts.drop_last()[j]).var
            == first + j && ts.drop_last()[j].coeff == Coeff::Pos(pow2(j as nat) as u64)
            && pow2(j as nat) <= 16384 by {
            assert(ts.drop_last()[j] == ts[j]);
        }
        lemma_lc_val_of_bits(ts.drop_last(), bits, vals, first);
        assert(ts.last() == ts[m]);
        assert(pow2(m as nat) <= 16384);
        assert((pow2(m as nat) as u64) as int == pow2(m as nat) as int);
        assert(coeff_int(ts.last().coeff) == pow2(m as nat) as int);
        assert(vals[ts.last().var as int] == bits[m] as nat);
        let sub = bits.subrange(0, m + 1);
        assert(sub.drop_last() =~= bits.subrange(0, m));
        assert(sub.last() == bits[m]);
        assert(bits_sum(sub) == bits_sum(bits.subrange(0, m)) + (bits[m] as int) * (pow2(
            m as nat,
        ) as int));
        assert(lc_val(ts, vals) == lc_val(ts.drop_last(), vals) + coeff_int(ts.last().coeff) * (
        vals[ts.last().var as int] as int));
    }
}

} // verus!
