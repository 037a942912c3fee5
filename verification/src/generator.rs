//! The per-epoch generator of the commitment group.
//!
//! The generator for epoch `e` is derived deterministically from `e` alone:
//! the SHAKE256 output for the persona string, the epoch number in
//! little-endian bytes and an attempt counter is read as a candidate curve
//! point, and the first attempt that decodes to a point is scaled by the
//! cofactor into the prime-order subgroup. The attempt counter is bounded;
//! each attempt succeeds with probability about one half, so exhausting the
//! bound never happens in practice, but the result is an `Option` so that
//! nothing here panics.

use crate::curve::g2_candidate;
use crate::curve::g2_candidate_s;
use crate::curve::G2Elem;
use crate::hashing::shake256;
use crate::hashing::shake256_s;
use vstd::bytes::spec_u64_to_le_bytes;
use vstd::bytes::u64_to_le_bytes;
use vstd::prelude::*;

verus! {

/// Number of bytes hashed out per attempt: enough for one candidate
/// G2 point (two 48-byte base-field coordinates).
pub const ATTEMPT_BYTES: usize = 96;

/// Bound on the attempt counter.
pub const MAX_ATTEMPTS: u16 = 256;

/// The domain-separation persona prefixing every generator derivation
/// (the byte string "OnePiece").
pub open spec fn persona_s() -> Seq<u8> {
    seq![0x4fu8, 0x6eu8, 0x65u8, 0x50u8, 0x69u8, 0x65u8, 0x63u8, 0x65u8]
}

/// The persona as a byte vector.
pub fn persona() -> (r: Vec<u8>)
    ensures
        r@ == persona_s(),
{
    let r: Vec<u8> = vec![0x4fu8, 0x6eu8, 0x65u8, 0x50u8, 0x69u8, 0x65u8, 0x63u8, 0x65u8];
    proof {
        assert(r@ =~= persona_s());
    }
    r
}

/// The bytes hashed for attempt `ctr` of epoch `e`.
pub open spec fn gen_input_s(e: u64, ctr: u8) -> Seq<u8> {
    persona_s() + spec_u64_to_le_bytes(e) + seq![ctr]
}

/// The candidate generator produced by attempt `ctr` of epoch `e`, if the
/// hash output decodes to a curve point: the decoded point moved into the
/// prime-order subgroup.
pub open spec fn gen_candidate_s(e: u64, ctr: u8) -> Option<G2Elem> {
    g2_candidate_s(shake256_s(gen_input_s(e, ctr), ATTEMPT_BYTES as nat))
}

/// The first candidate from attempt `ctr` on, if any attempt below the
/// bound succeeds.
pub open spec fn gen_search_s(e: u64, ctr: int) -> Option<G2Elem>
    decreases MAX_ATTEMPTS as int - ctr,
{
    if ctr < 0 || ctr >= MAX_ATTEMPTS as int {
        None
    } else {
        match gen_candidate_s(e, ctr as u8) {
            Some(g) => Some(g),
            None => gen_search_s(e, ctr + 1),
        }
    }
}

/// The epoch generator: a function of the epoch number alone.
pub open spec fn epoch_generator_s(e: u64) -> Option<G2Elem> {
    gen_search_s(e, 0)
}

/// Derives the generator for epoch `e`.
pub fn compute_epoch_generator(e: u64) -> (r: Option<G2Elem>)
    ensures
        r == epoch_generator_s(e),
{
    let mut ctr: u16 = 0;
    while ctr < MAX_ATTEMPTS
        invariant
            0 <= ctr <= MAX_ATTEMPTS,
            gen_search_s(e, ctr as int) == epoch_generator_s(e),
        decreases MAX_ATTEMPTS as int - ctr as int,
    {
        let mut input = persona();
        let mut ebytes = u64_to_le_bytes(e);
        input.append(&mut ebytes);
        input.push(ctr as u8);
        proof {
            assert(input@ =~= gen_input_s(e, ctr as u8));
        }
        let digest = shake256(input.as_slice(), ATTEMPT_BYTES);
        match g2_candidate(digest.as_slice()) {
            Some(p) => {
                return Some(p);
            },
            None => {},
        }
        ctr = ctr + 1;
    }
    None
}

} // verus!
