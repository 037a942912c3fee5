//! Non-interactive discrete-log-equality proofs over two G2 bases.
//!
//! A proof for the statement `u = g·a, v = h·a` is a Fiat–Shamir
//! transformed sigma protocol: the prover commits with a fresh scalar `w`,
//! derives the challenge `c` by hashing the statement and the commitments,
//! and answers with `r = w − c·a`. The verifier recomputes the commitments
//! as `g·r + u·c` and `h·r + v·c` and re-derives the challenge.

use crate::curve::fr_eq;
use crate::curve::fr_mod_bytes;
use crate::curve::fr_mod_bytes_s;
use crate::curve::fr_mul;
use crate::curve::fr_mul_s;
use crate::curve::fr_rand;
use crate::curve::fr_sub;
use crate::curve::fr_sub_s;
use crate::curve::g2_add;
use crate::curve::g2_add_s;
use crate::curve::g2_mul;
use crate::curve::g2_mul_s;
use crate::curve::FrElem;
use crate::curve::G2Elem;
use crate::hashing::shake256;
use crate::hashing::shake256_s;
use crate::ser::g2_ser_s;
use crate::ser::g2_to_bytes;
use crate::ser::FR_BYTES;
use vstd::prelude::*;

verus! {

/// A DLEQ proof: the Fiat–Shamir challenge and the response scalar.
pub struct DleqProof {
    pub c: FrElem,
    pub r: FrElem,
}

impl Clone for DleqProof {
    fn clone(&self) -> (r: Self)
        ensures
            r == *self,
    {
        DleqProof { c: self.c, r: self.r }
    }
}

impl Copy for DleqProof {

}

/// The transcript bytes hashed into the challenge: the two bases, the two
/// statement elements and the two commitments, each in canonical encoding.
pub open spec fn transcript_s(
    g: G2Elem,
    h: G2Elem,
    u: G2Elem,
    v: G2Elem,
    t1: G2Elem,
    t2: G2Elem,
) -> Seq<u8> {
    g2_ser_s(g) + g2_ser_s(h) + g2_ser_s(u) + g2_ser_s(v) + g2_ser_s(t1) + g2_ser_s(t2)
}

/// The Fiat–Shamir challenge scalar for a transcript.
pub open spec fn challenge_s(
    g: G2Elem,
    h: G2Elem,
    u: G2Elem,
    v: G2Elem,
    t1: G2Elem,
    t2: G2Elem,
) -> FrElem {
    fr_mod_bytes_s(shake256_s(transcript_s(g, h, u, v, t1, t2), FR_BYTES as nat))
}

/// What it means for a proof to pass verification for the statement
/// `(u, v)` under the bases `(g, h)`: the challenge re-derived from the
/// recomputed commitments equals the challenge of the proof.
pub open spec fn dleq_verify_s(g: G2Elem, h: G2Elem, u: G2Elem, v: G2Elem, pi: DleqProof) -> bool {
    challenge_s(
        g,
        h,
        u,
        v,
        g2_add_s(g2_mul_s(g, pi.r), g2_mul_s(u, pi.c)),
        g2_add_s(g2_mul_s(h, pi.r), g2_mul_s(v, pi.c)),
    ) == pi.c
}

/// The shape of an honestly produced proof for witness `a`: for some
/// commitment scalar `w`, the challenge hashes the commitments `g·w` and
/// `h·w`, and the response is `w − c·a`.
pub open spec fn honest_proof_s(g: G2Elem, h: G2Elem, a: FrElem, pi: DleqProof) -> bool {
    exists|w: FrElem|
        pi.c == challenge_s(
            g,
            h,
            g2_mul_s(g, a),
            g2_mul_s(h, a),
            g2_mul_s(g, w),
            g2_mul_s(h, w),
        ) && pi.r == fr_sub_s(w, fr_mul_s(pi.c, a))
}

/// Hashes a transcript into the challenge scalar.
fn compute_challenge(
    g: &G2Elem,
    h: &G2Elem,
    u: &G2Elem,
    v: &G2Elem,
    t1: &G2Elem,
    t2: &G2Elem,
) -> (c: FrElem)
    ensures
        c == challenge_s(*g, *h, *u, *v, *t1, *t2),
{
    let mut bytes = g2_to_bytes(g);
    let mut hb = g2_to_bytes(h);
    let mut ub = g2_to_bytes(u);
    let mut vb = g2_to_bytes(v);
    let mut t1b = g2_to_bytes(t1);
    let mut t2b = g2_to_bytes(t2);
    bytes.append(&mut hb);
    bytes.append(&mut ub);
    bytes.append(&mut vb);
    bytes.append(&mut t1b);
    bytes.append(&mut t2b);
    proof {
        assert(bytes@ =~= transcript_s(*g, *h, *u, *v, *t1, *t2));
    }
    let digest = shake256(bytes.as_slice(), FR_BYTES);
    fr_mod_bytes(digest.as_slice())
}

/// Produces a DLEQ proof for the statement `(g·a, h·a)` under the bases
/// `(g, h)` with witness `a`, using a fresh random commitment scalar.
pub fn dleq_prove(g: &G2Elem, h: &G2Elem, a: &FrElem) -> (pi: DleqProof)
    ensures
        honest_proof_s(*g, *h, *a, pi),
{
    let w = fr_rand();
    let u = g2_mul(g, a);
    let v = g2_mul(h, a);
    let t1 = g2_mul(g, &w);
    let t2 = g2_mul(h, &w);
    let c = compute_challenge(g, h, &u, &v, &t1, &t2);
    let r = fr_sub(&w, &fr_mul(&c, a));
    let pi = DleqProof { c, r };
    proof {
        assert(honest_proof_s(*g, *h, *a, pi)) by {
            assert(pi.c == challenge_s(
                *g,
                *h,
                g2_mul_s(*g, *a),
                g2_mul_s(*h, *a),
                g2_mul_s(*g, w),
                g2_mul_s(*h, w),
            ) && pi.r == fr_sub_s(w, fr_mul_s(pi.c, *a)));
        }
    }
    pi
}

/// Checks a DLEQ proof for the statement `(u, v)` under the bases `(g, h)`.
pub fn dleq_verify(g: &G2Elem, h: &G2Elem, u: &G2Elem, v: &G2Elem, pi: &DleqProof) -> (ok: bool)
    ensures
        ok == dleq_verify_s(*g, *h, *u, *v, *pi),
{
    let t1 = g2_add(&g2_mul(g, &pi.r), &g2_mul(u, &pi.c));
    let t2 = g2_add(&g2_mul(h, &pi.r), &g2_mul(v, &pi.c));
    let c2 = compute_challenge(g, h, u, v, &t1, &t2);
    fr_eq(&c2, &pi.c)
}

} // verus!
