//! End-to-end tests of the beacon engine: several nodes exchanging
//! messages in process, with the real curve arithmetic underneath.

use pvss_beacon::beacon::Core;
use pvss_beacon::beacon::StepOut;
use pvss_beacon::message::SigmaMessage;
use pvss_beacon::message::SigmaPair;
use pvss_beacon::setup::generate_setup;
use pvss_beacon::setup::Input;

/// One beacon as observed by a node: epoch and digest.
type Beacon = (u64, Vec<u8>);

fn make_cores(input: &Input, n: usize) -> Vec<Core> {
    let mut cores = Vec::new();
    for i in 0..n {
        cores.push(Core::new(i, input).expect("well-formed setup accepted"));
    }
    cores
}

fn record(
    from: usize,
    out: StepOut,
    queue: &mut Vec<(usize, SigmaMessage)>,
    beacons: &mut Vec<Vec<Beacon>>,
) {
    for b in out.beacons {
        beacons[from].push((b.epoch, b.digest));
    }
    for m in out.broadcasts {
        queue.push((from, m));
    }
}

/// Runs `n` nodes until every active one has passed `target` epochs;
/// inactive nodes neither send nor receive. Returns each node's emitted
/// beacons in order.
fn run_sim(cores: &mut Vec<Core>, active: &[bool], target: u64) -> Vec<Vec<Beacon>> {
    let n = cores.len();
    let mut beacons: Vec<Vec<Beacon>> = (0..n).map(|_| Vec::new()).collect();
    let mut queue: Vec<(usize, SigmaMessage)> = Vec::new();
    for i in 0..n {
        if active[i] {
            let out = cores[i].start();
            record(i, out, &mut queue, &mut beacons);
        }
    }
    let mut next: usize = 0;
    let mut steps: usize = 0;
    while next < queue.len() {
        steps += 1;
        assert!(steps < 100_000, "simulation did not converge");
        let (from, msg) = queue[next];
        next += 1;
        for j in 0..n {
            if j != from && active[j] {
                let out = cores[j].handle_sigma(&msg);
                record(j, out, &mut queue, &mut beacons);
            }
        }
        let done = (0..n).all(|i| !active[i] || cores[i].current_epoch() >= target);
        if done {
            break;
        }
    }
    beacons
}

fn assert_agreeing_prefix(beacons: &[Vec<Beacon>], active: &[bool], target: u64) {
    let reference = active.iter().position(|a| *a).expect("some active node");
    for i in 0..beacons.len() {
        if !active[i] {
            assert!(beacons[i].is_empty());
            continue;
        }
        assert!(
            beacons[i].len() >= target as usize,
            "node {} emitted only {} beacons",
            i,
            beacons[i].len()
        );
        for (k, (epoch, digest)) in beacons[i].iter().enumerate() {
            // each emission advances the epoch by exactly one
            assert_eq!(*epoch, k as u64);
            assert_eq!(digest.len(), 32);
            if k < beacons[reference].len() {
                assert_eq!(
                    (epoch, digest),
                    (&beacons[reference][k].0, &beacons[reference][k].1),
                    "nodes {} and {} disagree at epoch {}",
                    i,
                    reference,
                    k
                );
            }
        }
    }
}

#[test]
fn test_honest_quorum_agrees() {
    let input = generate_setup(4, 1);
    let mut cores = make_cores(&input, 4);
    let active = [true, true, true, true];
    let beacons = run_sim(&mut cores, &active, 3);
    assert_agreeing_prefix(&beacons, &active, 3);
}

#[test]
fn test_one_silent_node_still_progresses() {
    let input = generate_setup(4, 1);
    let mut cores = make_cores(&input, 4);
    let active = [true, true, true, false];
    let beacons = run_sim(&mut cores, &active, 3);
    assert_agreeing_prefix(&beacons, &active, 3);
}

#[test]
fn test_byzantine_bad_dleq_is_dropped() {
    let input = generate_setup(4, 1);
    let mut cores = make_cores(&input, 4);

    // node 3 forges a message for epoch 0 whose `u` belongs to another
    // epoch's contribution: the DLEQ check must reject it everywhere
    let (good, pi) = cores[3].prove(0).expect("generator derivable");
    let (other, _) = cores[3].prove(77).expect("generator derivable");
    let forged = SigmaMessage {
        epoch: 0,
        id: 3,
        sigma: SigmaPair { u: other.u, v: good.v },
        pi,
    };
    for j in 0..3 {
        let before = cores[j].sigma_count(0);
        let out = cores[j].handle_sigma(&forged);
        assert!(out.beacons.is_empty());
        assert!(out.broadcasts.is_empty());
        assert_eq!(cores[j].sigma_count(0), before);
        assert_eq!(cores[j].current_epoch(), 0);
    }

    // the honest majority still reaches agreement without node 3
    let active = [true, true, true, false];
    let beacons = run_sim(&mut cores, &active, 3);
    assert_agreeing_prefix(&beacons, &active, 3);
}

#[test]
fn test_future_epoch_message_is_buffered() {
    let input = generate_setup(4, 1);
    let mut cores = make_cores(&input, 4);

    // a valid epoch-2 contribution of node 1 arrives at node 0 before
    // node 0 has even started epoch 0
    let (sp, pi) = cores[1].prove(2).expect("generator derivable");
    let msg = SigmaMessage { epoch: 2, id: 1, sigma: sp, pi };
    let out = cores[0].handle_sigma(&msg);
    assert!(out.beacons.is_empty(), "a future message must not emit a beacon");
    assert!(out.broadcasts.is_empty());
    assert_eq!(cores[0].current_epoch(), 0);
    assert_eq!(cores[0].sigma_count(2), 1);

    // the run still converges with the buffered contribution in place
    let active = [true, true, true, true];
    let beacons = run_sim(&mut cores, &active, 3);
    assert_agreeing_prefix(&beacons, &active, 3);
}

#[test]
fn test_stale_message_is_dropped() {
    let input = generate_setup(4, 1);
    let mut cores = make_cores(&input, 4);
    let active = [true, true, true, true];
    run_sim(&mut cores, &active, 5);
    let epoch = cores[0].current_epoch();
    assert!(epoch >= 5);

    let (sp, pi) = cores[1].prove(3).expect("generator derivable");
    let stale = SigmaMessage { epoch: 3, id: 1, sigma: sp, pi };
    let out = cores[0].handle_sigma(&stale);
    assert!(out.beacons.is_empty());
    assert!(out.broadcasts.is_empty());
    assert_eq!(cores[0].current_epoch(), epoch);
    assert_eq!(cores[0].sigma_count(3), 0, "stale contributions are not stored");
}

#[test]
fn test_duplicate_message_counts_once() {
    let input = generate_setup(4, 1);
    let mut cores = make_cores(&input, 4);

    let (sp, pi) = cores[1].prove(0).expect("generator derivable");
    let msg = SigmaMessage { epoch: 0, id: 1, sigma: sp, pi };

    let out1 = cores[0].handle_sigma(&msg);
    assert!(out1.beacons.is_empty());
    assert_eq!(cores[0].sigma_count(0), 1);

    let out2 = cores[0].handle_sigma(&msg);
    assert!(out2.beacons.is_empty());
    assert!(out2.broadcasts.is_empty());
    assert_eq!(cores[0].sigma_count(0), 1, "a duplicate must not inflate the count");
    assert_eq!(cores[0].current_epoch(), 0);

    // the node's own contribution then completes the threshold t + 1 = 2
    let out3 = cores[0].start();
    assert!(out3.beacons.len() >= 1);
    assert_eq!(out3.beacons[0].epoch, 0);
}

#[test]
fn test_no_beacon_below_threshold() {
    let input = generate_setup(4, 1);
    let mut cores = make_cores(&input, 4);

    // only the node's own contribution: 1 < t + 1 = 2, so no beacon
    let out = cores[0].start();
    assert!(out.beacons.is_empty());
    assert_eq!(out.broadcasts.len(), 1);
    assert_eq!(cores[0].sigma_count(0), 1);
    assert_eq!(cores[0].current_epoch(), 0);

    // one valid peer contribution reaches the threshold and emits
    let (sp, pi) = cores[1].prove(0).expect("generator derivable");
    let msg = SigmaMessage { epoch: 0, id: 1, sigma: sp, pi };
    let out2 = cores[0].handle_sigma(&msg);
    assert_eq!(out2.beacons.len(), 1);
    assert_eq!(out2.beacons[0].epoch, 0);
    assert_eq!(out2.beacons[0].digest.len(), 32);
    assert_eq!(cores[0].current_epoch(), 1);
}

#[test]
fn test_prove_then_verify_and_consistency() {
    let input = generate_setup(4, 1);
    let mut cores = make_cores(&input, 4);
    for e in [0u64, 1, 9] {
        let (sp, pi) = cores[2].prove(e).expect("generator derivable");
        assert!(cores[2].verify(&sp, &pi, e, 2));
        assert!(cores[2].consistency(&sp, e, 2));
        // and every other node reaches the same verdict
        assert!(cores[0].verify(&sp, &pi, e, 2));
        assert!(cores[0].consistency(&sp, e, 2));
        // under the wrong epoch or the wrong claimed sender it fails
        assert!(!cores[0].verify(&sp, &pi, e + 1, 2));
        assert!(!cores[0].verify(&sp, &pi, e, 1));
    }
}

#[test]
fn test_setup_rejected_for_bad_id() {
    let input = generate_setup(4, 1);
    assert!(Core::new(4, &input).is_none());
    assert!(Core::new(0, &input).is_some());
}

#[test]
fn test_unqualified_sender_is_dropped() {
    let mut input = generate_setup(4, 1);
    // node 3 still holds its honest keys, but the loaded setup pairs it
    // with the wrong public share, so its triple fails qualification
    let honest = Core::new(3, &input);
    let mut sender = honest.expect("well-formed setup accepted");
    input.pks.swap(2, 3);

    let mut receiver = Core::new(0, &input).expect("well-formed setup accepted");
    let (sp, pi) = sender.prove(0).expect("generator derivable");
    let msg = SigmaMessage { epoch: 0, id: 3, sigma: sp, pi };
    let out = receiver.handle_sigma(&msg);
    assert!(out.beacons.is_empty());
    assert!(out.broadcasts.is_empty());
    assert_eq!(receiver.sigma_count(0), 0, "an unqualified contribution is not stored");

    // under the unmodified setup the same message is accepted
    let pristine = generate_setup(4, 1);
    let mut other = Core::new(0, &pristine).expect("well-formed setup accepted");
    let (sp2, pi2) = {
        let mut s3 = Core::new(3, &pristine).expect("well-formed setup accepted");
        s3.prove(0).expect("generator derivable")
    };
    let msg2 = SigmaMessage { epoch: 0, id: 3, sigma: sp2, pi: pi2 };
    other.handle_sigma(&msg2);
    assert_eq!(other.sigma_count(0), 1);
}
