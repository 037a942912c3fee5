//! The sigma-contribution message and its wire format.
//!
//! A message carries the sender's epoch, its participant id, its sigma
//! contribution `(u, v)` and the DLEQ proof tying the contribution to the
//! sender's setup commitment. On the wire the fields stand in declaration
//! order with fixed lengths: epoch and id as 8-byte little-endian
//! integers, then the canonical encodings of `u` (96 bytes), `v` (576
//! bytes) and the two proof scalars (32 bytes each) — 752 bytes in all.
//! Encoding followed by decoding returns the original message.

use crate::curve::FrElem;
use crate::curve::G2Elem;
use crate::curve::GtElem;
use crate::dleq::DleqProof;
use crate::ser::fr_deser_s;
use crate::ser::fr_from_bytes;
use crate::ser::fr_ser_s;
use crate::ser::fr_to_bytes;
use crate::ser::g2_deser_s;
use crate::ser::g2_from_bytes;
use crate::ser::g2_ser_s;
use crate::ser::g2_to_bytes;
use crate::ser::gt_deser_s;
use crate::ser::gt_from_bytes;
use crate::ser::gt_ser_s;
use crate::ser::gt_to_bytes;
use vstd::bytes::spec_u64_from_le_bytes;
use vstd::bytes::spec_u64_to_le_bytes;
use vstd::bytes::u64_from_le_bytes;
use vstd::bytes::u64_to_le_bytes;
use vstd::prelude::*;
use vstd::slice::slice_subrange;

verus! {

/// A participant's per-epoch contribution: `u = g_r·a_i` in G2 and
/// `v = e(sk_i, g_r)` in the target group.
pub struct SigmaPair {
    pub u: G2Elem,
    pub v: GtElem,
}

impl Clone for SigmaPair {
    fn clone(&self) -> (r: Self)
        ensures
            r == *self,
    {
        SigmaPair { u: self.u, v: self.v }
    }
}

impl Copy for SigmaPair {

}

/// A broadcast message: epoch, sender id, sigma contribution and DLEQ proof.
pub struct SigmaMessage {
    pub epoch: u64,
    pub id: usize,
    pub sigma: SigmaPair,
    pub pi: DleqProof,
}

impl Clone for SigmaMessage {
    fn clone(&self) -> (r: Self)
        ensures
            r == *self,
    {
        SigmaMessage { epoch: self.epoch, id: self.id, sigma: self.sigma, pi: self.pi }
    }
}

impl Copy for SigmaMessage {

}

/// Total length in bytes of an encoded message.
pub const WIRE_BYTES: usize = 752;

/// The canonical encoding of a message.
pub open spec fn encode_s(m: SigmaMessage) -> Seq<u8> {
    spec_u64_to_le_bytes(m.epoch) + spec_u64_to_le_bytes(m.id as u64) + g2_ser_s(m.sigma.u)
        + gt_ser_s(m.sigma.v) + fr_ser_s(m.pi.c) + fr_ser_s(m.pi.r)
}

/// The message that a byte string decodes to, if it is exactly one
/// well-formed encoding.
pub open spec fn decode_s(b: Seq<u8>) -> Option<SigmaMessage> {
    if b.len() != WIRE_BYTES {
        None
    } else {
        let epoch = spec_u64_from_le_bytes(b.subrange(0, 8));
        let id64 = spec_u64_from_le_bytes(b.subrange(8, 16));
        if id64 > usize::MAX as u64 {
            None
        } else {
            match (
                g2_deser_s(b.subrange(16, 112)),
                gt_deser_s(b.subrange(112, 688)),
                fr_deser_s(b.subrange(688, 720)),
                fr_deser_s(b.subrange(720, 752)),
            ) {
                (Some(u), Some(v), Some(c), Some(r)) => Some(
                    SigmaMessage {
                        epoch,
                        id: id64 as usize,
                        sigma: SigmaPair { u, v },
                        pi: DleqProof { c, r },
                    },
                ),
                _ => None,
            }
        }
    }
}

/// Encodes a message into its wire bytes. Decoding the result returns the
/// original message.
pub fn encode_sigma_message(m: &SigmaMessage) -> (r: Vec<u8>)
    ensures
        r@ == encode_s(*m),
        r@.len() == WIRE_BYTES,
        decode_s(r@) == Some(*m),
{
    let mut out = u64_to_le_bytes(m.epoch);
    let mut idb = u64_to_le_bytes(m.id as u64);
    let mut ub = g2_to_bytes(&m.sigma.u);
    let mut vb = gt_to_bytes(&m.sigma.v);
    let mut cb = fr_to_bytes(&m.pi.c);
    let mut rb = fr_to_bytes(&m.pi.r);
    out.append(&mut idb);
    out.append(&mut ub);
    out.append(&mut vb);
    out.append(&mut cb);
    out.append(&mut rb);
    proof {
        assert(out@ =~= encode_s(*m));
        assert(out@.subrange(0, 8) =~= spec_u64_to_le_bytes(m.epoch));
        assert(out@.subrange(8, 16) =~= spec_u64_to_le_bytes(m.id as u64));
        assert(out@.subrange(16, 112) =~= g2_ser_s(m.sigma.u));
        assert(out@.subrange(112, 688) =~= gt_ser_s(m.sigma.v));
        assert(out@.subrange(688, 720) =~= fr_ser_s(m.pi.c));
        assert(out@.subrange(720, 752) =~= fr_ser_s(m.pi.r));
        vstd::bytes::lemma_auto_spec_u64_to_from_le_bytes();
    }
    out
}

/// Decodes wire bytes into a message, rejecting every byte string that is
/// not exactly one well-formed encoding.
pub fn decode_sigma_message(b: &[u8]) -> (r: Option<SigmaMessage>)
    ensures
        r == decode_s(b@),
{
    if b.len() != WIRE_BYTES {
        return None;
    }
    let epoch = u64_from_le_bytes(slice_subrange(b, 0, 8));
    let id64 = u64_from_le_bytes(slice_subrange(b, 8, 16));
    if id64 > usize::MAX as u64 {
        return None;
    }
    let u = match g2_from_bytes(slice_subrange(b, 16, 112)) {
        Some(u) => u,
        None => {
            return None;
        },
    };
    let v = match gt_from_bytes(slice_subrange(b, 112, 688)) {
        Some(v) => v,
        None => {
            return None;
        },
    };
    let c = match fr_from_bytes(slice_subrange(b, 688, 720)) {
        Some(c) => c,
        None => {
            return None;
        },
    };
    let rr = match fr_from_bytes(slice_subrange(b, 720, 752)) {
        Some(rr) => rr,
        None => {
            return None;
        },
    };
    Some(
        SigmaMessage {
            epoch,
            id: id64 as usize,
            sigma: SigmaPair { u, v },
            pi: DleqProof { c, r: rr },
        },
    )
}

} // verus!
