//! Verified core of a PVSS-based distributed randomness beacon.
//!
//! A fixed set of `n` participants, at most `t` of them faulty, emits one
//! unpredictable 32-byte value per epoch. Each participant broadcasts a
//! per-epoch sigma contribution tied to its setup commitment by a DLEQ
//! proof; once `t + 1` valid contributions for the current epoch are
//! collected, the shared secret is reconstructed by Lagrange interpolation
//! in the pairing target group and hashed into the beacon value.
//!
//! The group and field arithmetic is provided by the arkworks crates on the
//! BLS12-381 curve; every call into them stands behind a small trusted
//! wrapper whose contract names the result. Everything above those
//! wrappers — the epoch state machine, aggregation, the proof transcripts,
//! interpolation and the wire codec — is verified.

pub mod beacon;
pub mod curve;
pub mod dleq;
pub mod generator;
pub mod hashing;
pub mod lagrange;
pub mod message;
pub mod ser;
pub mod setup;
