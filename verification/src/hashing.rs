//! Trusted wrapper around the SHAKE256 extendable-output function of the
//! sha3 crate.

use sha3::digest::ExtendableOutput;
use sha3::digest::Update;
use sha3::digest::XofReader;
use vstd::prelude::*;

verus! {

pub uninterp spec fn shake256_s(input: Seq<u8>, outlen: nat) -> Seq<u8>;

/// Relies on the sha3 crate's `Shake256`: the output stream depends only
/// on the input bytes, and exactly `outlen` bytes of it are read.
#[verifier::external_body]
pub fn shake256(input: &[u8], outlen: usize) -> (r: Vec<u8>)
    ensures
        r@ == shake256_s(input@, outlen as nat),
        r@.len() == outlen,
{
    let mut hasher = sha3::Shake256::default();
    hasher.update(input);
    let mut reader = hasher.finalize_xof();
    let mut out = vec![0u8; outlen];
    XofReader::read(&mut reader, &mut out);
    out
}

} // verus!
