//! Opaque element types for the BLS12-381 groups and scalar field, and
//! trusted wrappers around the arkworks operations on them.
//!
//! Verus cannot look inside an arkworks element, so each kind of element is
//! held in an opaque struct of this library. Every operation here is
//! deterministic in its arguments; its result is given a name (an
//! uninterpreted spec function), the wrapper's contract states that the
//! call returns the named value, and the verified logic above reasons in
//! terms of those names. The one exception is `fr_rand`, whose result is
//! fresh randomness and about which nothing is claimed.
//!
//! Every group element that can be constructed through this module lies
//! in its prime-order subgroup: the base generators do, the arithmetic is
//! subgroup-closed, decoding validates subgroup membership, and the one
//! hash-to-point operation clears the cofactor before handing the point
//! out.

use ark_ec::AffineCurve;
use ark_ec::PairingEngine;
use ark_ec::ProjectiveCurve;
use ark_ff::Field;
use ark_ff::One;
use ark_ff::PrimeField;
use ark_ff::UniformRand;
use vstd::prelude::*;

verus! {

/// An element of the encryption group G1 of BLS12-381, in affine form.
#[verifier::external_body]
pub struct G1Elem {
    pub(crate) inner: ark_bls12_381::G1Affine,
}

/// An element of the commitment group G2 of BLS12-381, in affine form.
#[verifier::external_body]
pub struct G2Elem {
    pub(crate) inner: ark_bls12_381::G2Affine,
}

/// An element of the pairing target group (Fq12 of BLS12-381).
#[verifier::external_body]
pub struct GtElem {
    pub(crate) inner: ark_bls12_381::Fq12,
}

/// An element of the scalar field Fr of BLS12-381.
#[verifier::external_body]
pub struct FrElem {
    pub(crate) inner: ark_bls12_381::Fr,
}

impl Clone for G1Elem {
    /// Relies on the element being a plain value: the copy equals the original.
    #[verifier::external_body]
    fn clone(&self) -> (r: Self)
        ensures
            r == *self,
    {
        G1Elem { inner: self.inner }
    }
}

impl Copy for G1Elem {

}

impl Clone for G2Elem {
    /// Relies on the element being a plain value: the copy equals the original.
    #[verifier::external_body]
    fn clone(&self) -> (r: Self)
        ensures
            r == *self,
    {
        G2Elem { inner: self.inner }
    }
}

impl Copy for G2Elem {

}

impl Clone for GtElem {
    /// Relies on the element being a plain value: the copy equals the original.
    #[verifier::external_body]
    fn clone(&self) -> (r: Self)
        ensures
            r == *self,
    {
        GtElem { inner: self.inner }
    }
}

impl Copy for GtElem {

}

impl Clone for FrElem {
    /// Relies on the scalar being a plain value: the copy equals the original.
    #[verifier::external_body]
    fn clone(&self) -> (r: Self)
        ensures
            r == *self,
    {
        FrElem { inner: self.inner }
    }
}

impl Copy for FrElem {

}

// ---------------------------------------------------------------------------
// Scalar field operations
// ---------------------------------------------------------------------------

pub uninterp spec fn fr_from_u64_s(x: u64) -> FrElem;

/// Relies on ark-ff's `From<u64>` for Fr: the embedding of integers far
/// below the field modulus is injective.
#[verifier::external_body]
pub fn fr_from_u64(x: u64) -> (r: FrElem)
    ensures
        r == fr_from_u64_s(x),
        forall|y: u64| y != x ==> r != fr_from_u64_s(y),
{
    FrElem { inner: ark_bls12_381::Fr::from(x) }
}

/// Relies on ark-ff's derived equality for Fr, which compares the unique
/// canonical representation of each scalar.
#[verifier::external_body]
pub fn fr_eq(a: &FrElem, b: &FrElem) -> (r: bool)
    ensures
        r == (a == b),
{
    a.inner == b.inner
}

pub uninterp spec fn fr_add_s(a: FrElem, b: FrElem) -> FrElem;

/// Relies on ark-ff's field addition for Fr.
#[verifier::external_body]
pub fn fr_add(a: &FrElem, b: &FrElem) -> (r: FrElem)
    ensures
        r == fr_add_s(*a, *b),
{
    FrElem { inner: a.inner + b.inner }
}

pub uninterp spec fn fr_sub_s(a: FrElem, b: FrElem) -> FrElem;

/// Relies on ark-ff's field subtraction for Fr; a difference is zero
/// exactly when the operands are equal.
#[verifier::external_body]
pub fn fr_sub(a: &FrElem, b: &FrElem) -> (r: FrElem)
    ensures
        r == fr_sub_s(*a, *b),
        (r == fr_from_u64_s(0)) <==> (a == b),
{
    FrElem { inner: a.inner - b.inner }
}

pub uninterp spec fn fr_mul_s(a: FrElem, b: FrElem) -> FrElem;

/// Relies on ark-ff's field multiplication for Fr.
#[verifier::external_body]
pub fn fr_mul(a: &FrElem, b: &FrElem) -> (r: FrElem)
    ensures
        r == fr_mul_s(*a, *b),
{
    FrElem { inner: a.inner * b.inner }
}

pub uninterp spec fn fr_inv_s(a: FrElem) -> FrElem;

/// Relies on ark-ff's `Field::inverse` for Fr, which returns `None`
/// exactly on the zero scalar.
#[verifier::external_body]
pub fn fr_inv(a: &FrElem) -> (r: Option<FrElem>)
    ensures
        match r {
            Some(x) => x == fr_inv_s(*a) && *a != fr_from_u64_s(0),
            None => *a == fr_from_u64_s(0),
        },
{
    match a.inner.inverse() {
        Some(x) => Some(FrElem { inner: x }),
        None => None,
    }
}

pub uninterp spec fn fr_mod_bytes_s(b: Seq<u8>) -> FrElem;

/// Relies on ark-ff's `PrimeField::from_be_bytes_mod_order` for Fr: the
/// scalar is the big-endian integer value of the bytes reduced mod r.
#[verifier::external_body]
pub fn fr_mod_bytes(b: &[u8]) -> (r: FrElem)
    ensures
        r == fr_mod_bytes_s(b@),
{
    FrElem { inner: ark_bls12_381::Fr::from_be_bytes_mod_order(b) }
}

/// Relies on ark-ff's `UniformRand` for Fr with the thread-local RNG; the
/// result is fresh randomness, so nothing is claimed about it.
#[verifier::external_body]
pub fn fr_rand() -> FrElem {
    FrElem { inner: ark_bls12_381::Fr::rand(&mut rand::thread_rng()) }
}

// ---------------------------------------------------------------------------
// G1 operations
// ---------------------------------------------------------------------------

/// Relies on ark-ec's `prime_subgroup_generator` for G1. The library treats
/// the returned point as an ordinary element; nothing depends on which one
/// it is.
#[verifier::external_body]
pub fn g1_base() -> G1Elem {
    G1Elem { inner: ark_bls12_381::G1Affine::prime_subgroup_generator() }
}

pub uninterp spec fn g1_mul_s(g: G1Elem, a: FrElem) -> G1Elem;

/// Relies on ark-ec's `AffineCurve::mul` for G1 (scalar multiplication).
#[verifier::external_body]
pub fn g1_mul(g: &G1Elem, a: &FrElem) -> (r: G1Elem)
    ensures
        r == g1_mul_s(*g, *a),
{
    G1Elem { inner: g.inner.mul(a.inner).into_affine() }
}

pub uninterp spec fn g1_add_s(a: G1Elem, b: G1Elem) -> G1Elem;

/// Relies on ark-ec's `Add` for affine G1 points.
#[verifier::external_body]
pub fn g1_add(a: &G1Elem, b: &G1Elem) -> (r: G1Elem)
    ensures
        r == g1_add_s(*a, *b),
{
    G1Elem { inner: a.inner + b.inner }
}

pub uninterp spec fn g1_neg_s(a: G1Elem) -> G1Elem;

/// Relies on ark-ec's `Neg` for affine G1 points.
#[verifier::external_body]
pub fn g1_neg(a: &G1Elem) -> (r: G1Elem)
    ensures
        r == g1_neg_s(*a),
{
    G1Elem { inner: -a.inner }
}

// ---------------------------------------------------------------------------
// G2 operations
// ---------------------------------------------------------------------------

/// Relies on ark-ec's `prime_subgroup_generator` for G2. The library treats
/// the returned point as an ordinary element; nothing depends on which one
/// it is.
#[verifier::external_body]
pub fn g2_base() -> G2Elem {
    G2Elem { inner: ark_bls12_381::G2Affine::prime_subgroup_generator() }
}

pub uninterp spec fn g2_mul_s(g: G2Elem, a: FrElem) -> G2Elem;

/// Relies on ark-ec's `AffineCurve::mul` for G2 (scalar multiplication).
#[verifier::external_body]
pub fn g2_mul(g: &G2Elem, a: &FrElem) -> (r: G2Elem)
    ensures
        r == g2_mul_s(*g, *a),
{
    G2Elem { inner: g.inner.mul(a.inner).into_affine() }
}

pub uninterp spec fn g2_add_s(a: G2Elem, b: G2Elem) -> G2Elem;

/// Relies on ark-ec's `Add` for affine G2 points.
#[verifier::external_body]
pub fn g2_add(a: &G2Elem, b: &G2Elem) -> (r: G2Elem)
    ensures
        r == g2_add_s(*a, *b),
{
    G2Elem { inner: a.inner + b.inner }
}

/// Relies on ark-ec's derived equality for affine G2 points, which
/// compares coordinates and the infinity flag.
#[verifier::external_body]
pub fn g2_eq(a: &G2Elem, b: &G2Elem) -> (r: bool)
    ensures
        r == (a == b),
{
    a.inner == b.inner
}

pub uninterp spec fn g2_candidate_s(b: Seq<u8>) -> Option<G2Elem>;

/// Relies on ark-ec's `AffineCurve::from_random_bytes` for G2 followed by
/// `scale_by_cofactor`: a deterministic attempt to read a curve point off
/// the given bytes, moved into the prime-order subgroup, failing on bytes
/// that decode to no point. The raw point never leaves this wrapper, so
/// every element of this library lies in the prime-order subgroup.
#[verifier::external_body]
pub fn g2_candidate(b: &[u8]) -> (r: Option<G2Elem>)
    ensures
        r == g2_candidate_s(b@),
{
    match ark_bls12_381::G2Affine::from_random_bytes(b) {
        Some(p) => Some(G2Elem { inner: p.scale_by_cofactor().into_affine() }),
        None => None,
    }
}

// ---------------------------------------------------------------------------
// Pairings and target-group operations
// ---------------------------------------------------------------------------

pub uninterp spec fn pair_s(a: G1Elem, b: G2Elem) -> GtElem;

/// Relies on ark-ec's `PairingEngine::pairing` for BLS12-381.
#[verifier::external_body]
pub fn pair(a: &G1Elem, b: &G2Elem) -> (r: GtElem)
    ensures
        r == pair_s(*a, *b),
{
    GtElem { inner: ark_bls12_381::Bls12_381::pairing(a.inner, b.inner) }
}

pub uninterp spec fn pair2_s(a1: G1Elem, b1: G2Elem, a2: G1Elem, b2: G2Elem) -> GtElem;

/// Relies on ark-ec's `PairingEngine::product_of_pairings` for BLS12-381,
/// applied to exactly two pairs.
#[verifier::external_body]
pub fn pair2(a1: &G1Elem, b1: &G2Elem, a2: &G1Elem, b2: &G2Elem) -> (r: GtElem)
    ensures
        r == pair2_s(*a1, *b1, *a2, *b2),
{
    let pairs = [
        (a1.inner.into(), b1.inner.into()),
        (a2.inner.into(), b2.inner.into()),
    ];
    GtElem { inner: ark_bls12_381::Bls12_381::product_of_pairings(pairs.iter()) }
}

pub uninterp spec fn pair3_s(
    a1: G1Elem,
    b1: G2Elem,
    a2: G1Elem,
    b2: G2Elem,
    a3: G1Elem,
    b3: G2Elem,
) -> GtElem;

/// Relies on ark-ec's `PairingEngine::product_of_pairings` for BLS12-381,
/// applied to exactly three pairs.
#[verifier::external_body]
pub fn pair3(
    a1: &G1Elem,
    b1: &G2Elem,
    a2: &G1Elem,
    b2: &G2Elem,
    a3: &G1Elem,
    b3: &G2Elem,
) -> (r: GtElem)
    ensures
        r == pair3_s(*a1, *b1, *a2, *b2, *a3, *b3),
{
    let pairs = [
        (a1.inner.into(), b1.inner.into()),
        (a2.inner.into(), b2.inner.into()),
        (a3.inner.into(), b3.inner.into()),
    ];
    GtElem { inner: ark_bls12_381::Bls12_381::product_of_pairings(pairs.iter()) }
}

pub uninterp spec fn gt_mul_s(a: GtElem, b: GtElem) -> GtElem;

/// Relies on ark-ff's field multiplication for Fq12 (the target group
/// operation).
#[verifier::external_body]
pub fn gt_mul(a: &GtElem, b: &GtElem) -> (r: GtElem)
    ensures
        r == gt_mul_s(*a, *b),
{
    GtElem { inner: a.inner * b.inner }
}

pub uninterp spec fn gt_pow_s(a: GtElem, e: FrElem) -> GtElem;

/// Relies on ark-ff's `Field::pow` for Fq12, with the scalar's canonical
/// integer representation as the exponent.
#[verifier::external_body]
pub fn gt_pow(a: &GtElem, e: &FrElem) -> (r: GtElem)
    ensures
        r == gt_pow_s(*a, *e),
{
    GtElem { inner: a.inner.pow(e.inner.into_repr()) }
}

pub uninterp spec fn gt_is_one_s(a: GtElem) -> bool;

/// Relies on ark-ff's `One::is_one` for Fq12: whether the element is the
/// identity of the target group.
#[verifier::external_body]
pub fn gt_is_one(a: &GtElem) -> (r: bool)
    ensures
        r == gt_is_one_s(*a),
{
    a.inner.is_one()
}

} // verus!
