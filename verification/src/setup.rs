//! The one-time setup consumed by a beacon node: the two group
//! generators, the participants' public and decrypted shares, and the
//! per-participant commitments, plus the qualification check that admits a
//! participant's commitment triple.
//!
//! Shares are evaluations of a random degree-`t` polynomial at the points
//! `1..=n` (never at zero, where the master secret sits). Participant `i`'s
//! commitment binds a fresh witness `a_i`: `part1 = g2·a_i` and
//! `part2 = sk_i − g1·a_i`.

use crate::curve::fr_add;
use crate::curve::fr_add_s;
use crate::curve::fr_from_u64;
use crate::curve::fr_from_u64_s;
use crate::curve::fr_mul;
use crate::curve::fr_mul_s;
use crate::curve::fr_rand;
use crate::curve::g1_add;
use crate::curve::g1_add_s;
use crate::curve::g1_base;
use crate::curve::g1_mul;
use crate::curve::g1_mul_s;
use crate::curve::g1_neg;
use crate::curve::g1_neg_s;
use crate::curve::g2_base;
use crate::curve::g2_mul;
use crate::curve::g2_mul_s;
use crate::curve::gt_is_one;
use crate::curve::gt_is_one_s;
use crate::curve::pair3;
use crate::curve::pair3_s;
use crate::curve::FrElem;
use crate::curve::G1Elem;
use crate::curve::G2Elem;
use vstd::prelude::*;

verus! {

/// A participant's setup commitment. Only the owner's record carries the
/// true witness `a_i`; verification of peers consults `part1` and `part2`
/// alone.
pub struct Commitment {
    pub id: usize,
    pub a_i: FrElem,
    pub part1: G2Elem,
    pub part2: G1Elem,
}

impl Clone for Commitment {
    fn clone(&self) -> (r: Self)
        ensures
            r == *self,
    {
        Commitment { id: self.id, a_i: self.a_i, part1: self.part1, part2: self.part2 }
    }
}

impl Copy for Commitment {

}

/// The immutable setup a node starts from.
pub struct Input {
    pub num_participants: usize,
    pub degree: usize,
    pub g1: G1Elem,
    pub g2: G2Elem,
    pub pks: Vec<G2Elem>,
    pub sks: Vec<G1Elem>,
    pub commitments: Vec<Commitment>,
}

/// Well-formedness of a setup: consistent lengths, the fault bound
/// `n ≥ 2t + 2`, ids in order, and every commitment's `part1` bound to its
/// witness.
pub open spec fn input_wf_s(inp: Input) -> bool {
    &&& inp.pks@.len() == inp.num_participants
    &&& inp.sks@.len() == inp.num_participants
    &&& inp.commitments@.len() == inp.num_participants
    &&& 2 * (inp.degree as int) + 2 <= inp.num_participants
    &&& forall|i: int|
        0 <= i < inp.num_participants ==> (#[trigger] inp.commitments@[i]).id == i
    &&& forall|i: int|
        0 <= i < inp.num_participants ==> (#[trigger] inp.commitments@[i]).part1 == g2_mul_s(
            inp.g2,
            inp.commitments@[i].a_i,
        )
}

/// Horner evaluation of the polynomial with the first `k` high-order
/// coefficients folded in.
pub open spec fn horner_upto_s(coeffs: Seq<FrElem>, x: FrElem, k: int) -> FrElem
    decreases k,
{
    if k <= 0 {
        fr_from_u64_s(0)
    } else {
        fr_add_s(
            fr_mul_s(horner_upto_s(coeffs, x, k - 1), x),
            coeffs[coeffs.len() - k],
        )
    }
}

/// The value of the polynomial with the given coefficients (low order
/// first) at `x`.
pub open spec fn poly_eval_s(coeffs: Seq<FrElem>, x: FrElem) -> FrElem {
    horner_upto_s(coeffs, x, coeffs.len() as int)
}

/// Evaluates a polynomial (coefficients low order first) at `x` by
/// Horner's rule.
pub fn poly_eval(coeffs: &Vec<FrElem>, x: &FrElem) -> (r: FrElem)
    ensures
        r == poly_eval_s(coeffs@, *x),
{
    let mut acc = fr_from_u64(0);
    let mut k: usize = 0;
    while k < coeffs.len()
        invariant
            0 <= k <= coeffs@.len(),
            acc == horner_upto_s(coeffs@, *x, k as int),
        decreases coeffs@.len() - k,
    {
        acc = fr_add(&fr_mul(&acc, x), &coeffs[coeffs.len() - 1 - k]);
        k = k + 1;
    }
    acc
}

/// The shares of a setup all come from one polynomial with the given
/// coefficients: participant `i` holds the evaluation at `i + 1` behind
/// `g1` (decrypted share) and `g2` (public share), and its commitment's
/// `part2` is the decrypted share blinded by the witness.
pub open spec fn setup_shares_s(inp: Input, coeffs: Seq<FrElem>) -> bool {
    &&& coeffs.len() == inp.degree + 1
    &&& forall|i: int|
        0 <= i < inp.num_participants ==> {
            let s = poly_eval_s(coeffs, fr_from_u64_s((i + 1) as u64));
            &&& (#[trigger] inp.pks@[i]) == g2_mul_s(inp.g2, s)
            &&& inp.sks@[i] == g1_mul_s(inp.g1, s)
            &&& inp.commitments@[i].part2 == g1_add_s(
                inp.sks@[i],
                g1_neg_s(g1_mul_s(inp.g1, inp.commitments@[i].a_i)),
            )
        }
}

/// Generates a fresh honest setup for `n` participants with fault bound
/// `t`: a random degree-`t` polynomial, shares at the points `1..=n`, and
/// a fresh witness per participant.
pub fn generate_setup(n: usize, t: usize) -> (r: Input)
    requires
        2 * (t as int) + 2 <= n as int,
    ensures
        input_wf_s(r),
        r.num_participants == n,
        r.degree == t,
        exists|coeffs: Seq<FrElem>| #[trigger] setup_shares_s(r, coeffs),
{
    let g1 = g1_base();
    let g2 = g2_base();
    let mut coeffs: Vec<FrElem> = Vec::new();
    let mut k: usize = 0;
    while k <= t
        invariant
            k <= t + 1,
            t < usize::MAX,
            coeffs@.len() == k,
        decreases t + 1 - k,
    {
        coeffs.push(fr_rand());
        k = k + 1;
    }
    let mut pks: Vec<G2Elem> = Vec::new();
    let mut sks: Vec<G1Elem> = Vec::new();
    let mut commitments: Vec<Commitment> = Vec::new();
    let mut i: usize = 0;
    while i < n
        invariant
            0 <= i <= n,
            pks@.len() == i,
            sks@.len() == i,
            commitments@.len() == i,
            forall|j: int| 0 <= j < i ==> (#[trigger] commitments@[j]).id == j,
            forall|j: int|
                0 <= j < i ==> (#[trigger] commitments@[j]).part1 == g2_mul_s(
                    g2,
                    commitments@[j].a_i,
                ),
            coeffs@.len() == t + 1,
            forall|j: int|
                0 <= j < i ==> {
                    let s = poly_eval_s(coeffs@, fr_from_u64_s((j + 1) as u64));
                    &&& (#[trigger] pks@[j]) == g2_mul_s(g2, s)
                    &&& sks@[j] == g1_mul_s(g1, s)
                    &&& commitments@[j].part2 == g1_add_s(
                        sks@[j],
                        g1_neg_s(g1_mul_s(g1, commitments@[j].a_i)),
                    )
                },
        decreases n - i,
    {
        let x = fr_from_u64((i as u64) + 1);
        let s = poly_eval(&coeffs, &x);
        let pk = g2_mul(&g2, &s);
        let sk = g1_mul(&g1, &s);
        let a = fr_rand();
        let part1 = g2_mul(&g2, &a);
        let part2 = g1_add(&sk, &g1_neg(&g1_mul(&g1, &a)));
        pks.push(pk);
        sks.push(sk);
        commitments.push(Commitment { id: i, a_i: a, part1, part2 });
        i = i + 1;
    }
    let r = Input { num_participants: n, degree: t, g1, g2, pks, sks, commitments };
    proof {
        assert(setup_shares_s(r, coeffs@));
    }
    r
}

/// Whether participant `i`'s setup triple passes the pairing product
/// check `e(−g1, pk_i) · e(g1, part1_i) · e(part2_i, g2) = 1`.
pub open spec fn qualified_s(
    g1: G1Elem,
    g2: G2Elem,
    pk: G2Elem,
    part1: G2Elem,
    part2: G1Elem,
) -> bool {
    gt_is_one_s(pair3_s(g1_neg_s(g1), pk, g1, part1, part2, g2))
}

/// Runs the qualification check on every participant of a setup.
pub fn compute_qual(inp: &Input) -> (r: Vec<bool>)
    requires
        inp.pks@.len() == inp.num_participants,
        inp.commitments@.len() == inp.num_participants,
    ensures
        r@.len() == inp.num_participants,
        forall|i: int|
            0 <= i < inp.num_participants ==> r@[i] == qualified_s(
                inp.g1,
                inp.g2,
                inp.pks@[i],
                inp.commitments@[i].part1,
                inp.commitments@[i].part2,
            ),
{
    let mut r: Vec<bool> = Vec::new();
    let mut i: usize = 0;
    while i < inp.num_participants
        invariant
            0 <= i <= inp.num_participants,
            inp.pks@.len() == inp.num_participants,
            inp.commitments@.len() == inp.num_participants,
            r@.len() == i,
            forall|j: int|
                0 <= j < i ==> r@[j] == qualified_s(
                    inp.g1,
                    inp.g2,
                    inp.pks@[j],
                    inp.commitments@[j].part1,
                    inp.commitments@[j].part2,
                ),
        decreases inp.num_participants - i,
    {
        let prod = pair3(
            &g1_neg(&inp.g1),
            &inp.pks[i],
            &inp.g1,
            &inp.commitments[i].part1,
            &inp.commitments[i].part2,
            &inp.g2,
        );
        r.push(gt_is_one(&prod));
        i = i + 1;
    }
    r
}

} // verus!
