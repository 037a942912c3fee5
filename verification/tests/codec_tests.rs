//! Tests of the wire codec and the qualification check.

use pvss_beacon::beacon::Core;
use pvss_beacon::message::decode_sigma_message;
use pvss_beacon::message::encode_sigma_message;
use pvss_beacon::message::SigmaMessage;
use pvss_beacon::message::WIRE_BYTES;
use pvss_beacon::setup::compute_qual;
use pvss_beacon::setup::generate_setup;

fn sample_message() -> SigmaMessage {
    let input = generate_setup(4, 1);
    let mut core = Core::new(2, &input).expect("well-formed setup accepted");
    let (sp, pi) = core.prove(5).expect("generator derivable");
    SigmaMessage { epoch: 5, id: 2, sigma: sp, pi }
}

#[test]
fn test_encode_decode_round_trip() {
    let msg = sample_message();
    let bytes = encode_sigma_message(&msg);
    assert_eq!(bytes.len(), WIRE_BYTES);
    let back = decode_sigma_message(&bytes).expect("own encoding decodes");
    assert_eq!(back.epoch, 5);
    assert_eq!(back.id, 2);
    // the decoded message re-encodes to the identical bytes
    let again = encode_sigma_message(&back);
    assert_eq!(again, bytes);
}

#[test]
fn test_decode_rejects_wrong_length() {
    let msg = sample_message();
    let mut bytes = encode_sigma_message(&msg);
    bytes.pop();
    assert!(decode_sigma_message(&bytes).is_none());
    assert!(decode_sigma_message(&[]).is_none());
}

#[test]
fn test_decode_rejects_corrupt_point() {
    let msg = sample_message();
    let mut bytes = encode_sigma_message(&msg);
    // clobber the compressed G2 point with bytes that are no encoding
    for b in bytes.iter_mut().skip(16).take(96) {
        *b = 0xff;
    }
    assert!(decode_sigma_message(&bytes).is_none());
}

#[test]
fn test_honest_setup_is_fully_qualified() {
    let input = generate_setup(4, 1);
    let qual = compute_qual(&input);
    assert_eq!(qual.len(), 4);
    assert!(qual.iter().all(|q| *q));
}

#[test]
fn test_own_commitment_binds_witness() {
    let input = generate_setup(4, 1);
    let core = Core::new(1, &input).expect("well-formed setup accepted");
    let a = core.own_witness();
    let (part1, _part2) = core.get_commitment(1);
    let expected = pvss_beacon::curve::g2_mul(&input.g2, &a);
    assert!(pvss_beacon::curve::g2_eq(&part1, &expected));
}
