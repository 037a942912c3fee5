//! Trusted wrappers around the canonical byte encoding of curve elements,
//! provided by the ark-serialize crate.
//!
//! Each element kind has a fixed-length canonical encoding (G1 compressed:
//! 48 bytes; G2 compressed: 96 bytes; Gt: 576 bytes; Fr: 32 bytes), and
//! deserialization accepts exactly the canonical encodings, so encoding
//! followed by decoding returns the original element.

use crate::curve::FrElem;
use crate::curve::G1Elem;
use crate::curve::G2Elem;
use crate::curve::GtElem;
use ark_serialize::CanonicalDeserialize;
use ark_serialize::CanonicalSerialize;
use vstd::prelude::*;

verus! {

/// Length in bytes of a compressed G1 point.
pub const G1_BYTES: usize = 48;

/// Length in bytes of a compressed G2 point.
pub const G2_BYTES: usize = 96;

/// Length in bytes of a target-group element.
pub const GT_BYTES: usize = 576;

/// Length in bytes of a scalar.
pub const FR_BYTES: usize = 32;

pub uninterp spec fn g1_ser_s(x: G1Elem) -> Seq<u8>;

pub uninterp spec fn g1_deser_s(b: Seq<u8>) -> Option<G1Elem>;

/// Relies on ark-serialize's `CanonicalSerialize` for G1: 48 bytes of
/// compressed encoding, accepted back by `CanonicalDeserialize`. Decoding
/// checks prime-order subgroup membership, and every G1 element this
/// library can construct lies in that subgroup, so the round trip holds
/// of every reachable element.
#[verifier::external_body]
pub fn g1_to_bytes(x: &G1Elem) -> (r: Vec<u8>)
    ensures
        r@ == g1_ser_s(*x),
        r@.len() == G1_BYTES,
        g1_deser_s(r@) == Some(*x),
{
    let mut out = Vec::new();
    x.inner.serialize(&mut out).unwrap();
    out
}

/// Relies on ark-serialize's `CanonicalDeserialize` for G1, which rejects
/// every byte string that is not the canonical encoding of a point.
#[verifier::external_body]
pub fn g1_from_bytes(b: &[u8]) -> (r: Option<G1Elem>)
    ensures
        r == g1_deser_s(b@),
{
    match ark_bls12_381::G1Affine::deserialize(b) {
        Ok(p) => Some(G1Elem { inner: p }),
        Err(_) => None,
    }
}

pub uninterp spec fn g2_ser_s(x: G2Elem) -> Seq<u8>;

pub uninterp spec fn g2_deser_s(b: Seq<u8>) -> Option<G2Elem>;

/// Relies on ark-serialize's `CanonicalSerialize` for G2: 96 bytes of
/// compressed encoding, accepted back by `CanonicalDeserialize`. Decoding
/// checks prime-order subgroup membership, and every element this library
/// can construct lies in that subgroup (the base generator,
/// subgroup-closed arithmetic, validated decoding, and cofactor-cleared
/// hashing), so the round trip holds of every reachable element.
#[verifier::external_body]
pub fn g2_to_bytes(x: &G2Elem) -> (r: Vec<u8>)
    ensures
        r@ == g2_ser_s(*x),
        r@.len() == G2_BYTES,
        g2_deser_s(r@) == Some(*x),
{
    let mut out = Vec::new();
    x.inner.serialize(&mut out).unwrap();
    out
}

/// Relies on ark-serialize's `CanonicalDeserialize` for G2, which rejects
/// every byte string that is not the canonical encoding of a point.
#[verifier::external_body]
pub fn g2_from_bytes(b: &[u8]) -> (r: Option<G2Elem>)
    ensures
        r == g2_deser_s(b@),
{
    match ark_bls12_381::G2Affine::deserialize(b) {
        Ok(p) => Some(G2Elem { inner: p }),
        Err(_) => None,
    }
}

pub uninterp spec fn gt_ser_s(x: GtElem) -> Seq<u8>;

pub uninterp spec fn gt_deser_s(b: Seq<u8>) -> Option<GtElem>;

/// Relies on ark-serialize's `CanonicalSerialize` for Fq12: 576 bytes (12
/// base-field coordinates of 48 bytes each), accepted back by
/// `CanonicalDeserialize`.
#[verifier::external_body]
pub fn gt_to_bytes(x: &GtElem) -> (r: Vec<u8>)
    ensures
        r@ == gt_ser_s(*x),
        r@.len() == GT_BYTES,
        gt_deser_s(r@) == Some(*x),
{
    let mut out = Vec::new();
    x.inner.serialize(&mut out).unwrap();
    out
}

/// Relies on ark-serialize's `CanonicalDeserialize` for Fq12, which rejects
/// every byte string holding a coordinate at or above the base-field
/// modulus.
#[verifier::external_body]
pub fn gt_from_bytes(b: &[u8]) -> (r: Option<GtElem>)
    ensures
        r == gt_deser_s(b@),
{
    match ark_bls12_381::Fq12::deserialize(b) {
        Ok(p) => Some(GtElem { inner: p }),
        Err(_) => None,
    }
}

pub uninterp spec fn fr_ser_s(x: FrElem) -> Seq<u8>;

pub uninterp spec fn fr_deser_s(b: Seq<u8>) -> Option<FrElem>;

/// Relies on ark-serialize's `CanonicalSerialize` for Fr: 32 bytes of
/// little-endian canonical encoding, accepted back by
/// `CanonicalDeserialize`.
#[verifier::external_body]
pub fn fr_to_bytes(x: &FrElem) -> (r: Vec<u8>)
    ensures
        r@ == fr_ser_s(*x),
        r@.len() == FR_BYTES,
        fr_deser_s(r@) == Some(*x),
{
    let mut out = Vec::new();
    x.inner.serialize(&mut out).unwrap();
    out
}

/// Relies on ark-serialize's `CanonicalDeserialize` for Fr, which rejects
/// every byte string whose integer value is not below the scalar modulus.
#[verifier::external_body]
pub fn fr_from_bytes(b: &[u8]) -> (r: Option<FrElem>)
    ensures
        r == fr_deser_s(b@),
{
    match ark_bls12_381::Fr::deserialize(b) {
        Ok(p) => Some(FrElem { inner: p }),
        Err(_) => None,
    }
}

} // verus!
