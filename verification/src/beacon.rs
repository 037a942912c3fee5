//! The per-node beacon engine: the epoch state machine that produces,
//! verifies, aggregates and reconstructs sigma contributions.
//!
//! A `Core` owns the epoch counter, the per-epoch contribution maps, the
//! memoized epoch generators and a ghost history of the beacons it has
//! emitted. Messages are ingested through `handle_sigma`; accepting the
//! `t + 1`-st contribution for the current epoch reconstructs the shared
//! secret, emits the beacon digest, advances the epoch and broadcasts the
//! node's own contribution for the new epoch, cascading while buffered
//! future-epoch contributions keep the new epoch ready.
//!
//! The well-formedness invariant `wf` carries the engine's central
//! guarantees: the epoch equals the number of beacons emitted, every
//! emission rests on at least `t + 1` accepted contributions, and every
//! stored contribution passed the DLEQ and pairing-consistency checks.

use crate::curve::g1_neg;
use crate::curve::g1_neg_s;
use crate::curve::g2_eq;
use crate::curve::g2_mul;
use crate::curve::g2_mul_s;
use crate::curve::gt_is_one;
use crate::curve::gt_is_one_s;
use crate::curve::gt_mul;
use crate::curve::gt_mul_s;
use crate::curve::pair;
use crate::curve::pair2;
use crate::curve::pair2_s;
use crate::curve::pair_s;
use crate::curve::FrElem;
use crate::curve::G1Elem;
use crate::curve::G2Elem;
use crate::curve::GtElem;
use crate::dleq::dleq_prove;
use crate::dleq::dleq_verify;
use crate::dleq::dleq_verify_s;
use crate::dleq::honest_proof_s;
use crate::dleq::DleqProof;
use crate::generator::compute_epoch_generator;
use crate::generator::epoch_generator_s;
use crate::hashing::shake256;
use crate::hashing::shake256_s;
use crate::lagrange::distinct_points_s;
use crate::lagrange::lagrange_interpolate_gt;
use crate::lagrange::reconstruct_s;
use crate::message::SigmaMessage;
use crate::message::SigmaPair;
use crate::ser::gt_ser_s;
use crate::ser::gt_to_bytes;
use crate::setup::compute_qual;
use crate::setup::qualified_s;
use crate::setup::Commitment;
use crate::setup::Input;
use vstd::hash_map::HashMapWithView;
use vstd::prelude::*;

verus! {

broadcast use
    vstd::std_specs::hash::group_hash_axioms,
    vstd::hash_map::group_hash_map_axioms,
    vstd::map::group_map_axioms;

/// Length in bytes of a beacon digest (the security parameter over eight).
pub const BEACON_BYTES: usize = 32;

/// The digest derived from a reconstructed target-group element: SHAKE256
/// of its canonical encoding, read to the beacon length.
pub open spec fn beacon_digest_s(sigma: GtElem) -> Seq<u8> {
    shake256_s(gt_ser_s(sigma), BEACON_BYTES as nat)
}

/// Derives the beacon digest from a reconstructed element.
pub fn compute_beacon_digest(sigma: &GtElem) -> (r: Vec<u8>)
    ensures
        r@ == beacon_digest_s(*sigma),
        r@.len() == BEACON_BYTES,
{
    let b = gt_to_bytes(sigma);
    shake256(b.as_slice(), BEACON_BYTES)
}

/// The evaluation pairs fed to interpolation for a contribution map:
/// participant ids `0 ≤ i < k` in increasing order, each present id `i`
/// contributing the point `i + 1` and its target-group value.
pub open spec fn recon_pairs_s(m: Map<usize, SigmaPair>, k: int) -> Seq<(u64, GtElem)>
    decreases k,
{
    if k <= 0 {
        Seq::empty()
    } else {
        let pre = recon_pairs_s(m, k - 1);
        if m.contains_key((k - 1) as usize) {
            pre.push((k as u64, m[(k - 1) as usize].v))
        } else {
            pre
        }
    }
}

/// The pairing-product consistency equation for a contribution of
/// participant `i` under the epoch generator `g`:
/// `v · e(−part2_i, g) · e(−g1, u) = 1`.
pub open spec fn consistency_ok_s(
    commitments: Seq<Commitment>,
    g1: G1Elem,
    g: G2Elem,
    i: int,
    p: SigmaPair,
) -> bool {
    gt_is_one_s(gt_mul_s(p.v, pair2_s(g1_neg_s(commitments[i].part2), g, g1_neg_s(g1), p.u)))
}

/// What acceptance certifies of a stored contribution: a qualified,
/// in-range sender, a derivable epoch generator, the consistency
/// equation, and some proof passing DLEQ verification.
pub open spec fn contribution_ok_s(
    n: int,
    qual: Seq<bool>,
    commitments: Seq<Commitment>,
    g1: G1Elem,
    g2: G2Elem,
    e: u64,
    i: int,
    p: SigmaPair,
) -> bool {
    &&& 0 <= i < n
    &&& qual[i]
    &&& match epoch_generator_s(e) {
        Some(g) => consistency_ok_s(commitments, g1, g, i, p) && exists|pi: DleqProof|
            dleq_verify_s(g, g2, p.u, commitments[i].part1, pi),
        None => false,
    }
}

/// What every emission record certifies: it closed its position's epoch,
/// rests on at least `t + 1` accepted contributions, and its digest is the
/// hash of the value reconstructed from them.
pub open spec fn hist_ok_s(
    n: int,
    t: int,
    qual: Seq<bool>,
    commitments: Seq<Commitment>,
    g1: G1Elem,
    g2: G2Elem,
    em: Emission,
    k: int,
) -> bool {
    &&& em.epoch == k
    &&& em.contributors.len() >= t + 1
    &&& forall|i: usize| #[trigger]
        em.contributors.contains_key(i) ==> contribution_ok_s(
            n,
            qual,
            commitments,
            g1,
            g2,
            em.epoch,
            i as int,
            em.contributors[i],
        )
    &&& em.value == reconstruct_s(recon_pairs_s(em.contributors, n))
    &&& em.digest == beacon_digest_s(em.value)
}

/// A ghost record of one beacon emission: the epoch, the contribution map
/// it was reconstructed from, the reconstructed element and its digest.
pub struct Emission {
    pub epoch: u64,
    pub contributors: Map<usize, SigmaPair>,
    pub value: GtElem,
    pub digest: Seq<u8>,
}

/// One emitted beacon: the epoch it closes and the 32-byte digest.
pub struct BeaconValue {
    pub epoch: u64,
    pub digest: Vec<u8>,
}

/// What one step of the engine hands back to its caller: beacons emitted,
/// and own contributions to send to every peer.
pub struct StepOut {
    pub beacons: Vec<BeaconValue>,
    pub broadcasts: Vec<SigmaMessage>,
}

/// The evaluation points produced for a contribution map lie in `1..=k`
/// and increase strictly, so they are pairwise distinct.
proof fn lemma_recon_pairs_increasing(m: Map<usize, SigmaPair>, k: int)
    requires
        k <= u64::MAX as int,
    ensures
        forall|a: int|
            0 <= a < recon_pairs_s(m, k).len() ==> 1 <= (#[trigger] recon_pairs_s(m, k)[a]).0
                <= k,
        forall|a: int, b: int|
            0 <= a < b < recon_pairs_s(m, k).len() ==> recon_pairs_s(m, k)[a].0 < recon_pairs_s(
                m,
                k,
            )[b].0,
    decreases k,
{
    if k <= 0 {
    } else {
        lemma_recon_pairs_increasing(m, k - 1);
        let pre = recon_pairs_s(m, k - 1);
        let cur = recon_pairs_s(m, k);
        if m.contains_key((k - 1) as usize) {
            assert forall|a: int, b: int| 0 <= a < b < cur.len() implies cur[a].0 < cur[b].0 by {
                if b < pre.len() as int {
                } else {
                    assert(b == pre.len());
                    assert(cur[b].0 == k as u64);
                    assert(cur[a] == pre[a]);
                }
            }
        }
    }
}

/// A nonempty contribution map with a key below `k` yields at least one
/// evaluation pair.
proof fn lemma_recon_pairs_nonempty(m: Map<usize, SigmaPair>, k: int, i0: usize)
    requires
        i0 < k,
        m.contains_key(i0),
    ensures
        recon_pairs_s(m, k).len() >= 1,
    decreases k,
{
    if k <= 0 {
    } else {
        if (i0 as int) < k - 1 {
            lemma_recon_pairs_nonempty(m, k - 1, i0);
        }
    }
}

/// A map counted as nonempty holds some key.
proof fn lemma_map_key_exists(m: Map<usize, SigmaPair>)
    requires
        m.len() >= 1,
    ensures
        exists|i: usize| m.contains_key(i),
{
    if !(exists|i: usize| m.contains_key(i)) {
        assert(m.dom() =~= Set::<usize>::empty());
        assert(m.len() == 0);
    }
}

/// The beacon engine of one node.
pub struct Core {
    pub id: usize,
    pub num_participants: usize,
    pub num_faults: usize,
    pub g1: G1Elem,
    pub g2: G2Elem,
    pub sk: G1Elem,
    pub a_self: FrElem,
    pub commitments: Vec<Commitment>,
    pub qual: Vec<bool>,
    pub epoch: u64,
    pub generators: HashMapWithView<u64, G2Elem>,
    pub sigmas: HashMapWithView<u64, HashMapWithView<usize, SigmaPair>>,
    pub history: Ghost<Seq<Emission>>,
}

impl Core {
    /// The contribution map stored for epoch `e` (empty if none).
    pub open spec fn sig_at(self, e: u64) -> Map<usize, SigmaPair> {
        if self.sigmas@.contains_key(e) {
            self.sigmas@[e]@
        } else {
            Map::empty()
        }
    }

    /// The acceptance gate for a message: not stale, in-range qualified
    /// sender, derivable generator, DLEQ verification and consistency.
    pub open spec fn accepts_s(self, m: SigmaMessage) -> bool {
        &&& m.epoch >= self.epoch
        &&& m.id < self.num_participants
        &&& self.qual@[m.id as int]
        &&& match epoch_generator_s(m.epoch) {
            Some(g) => dleq_verify_s(
                g,
                self.g2,
                m.sigma.u,
                self.commitments@[m.id as int].part1,
                m.pi,
            ) && consistency_ok_s(self.commitments@, self.g1, g, m.id as int, m.sigma),
            None => false,
        }
    }

    /// What the engine promises of every message it broadcasts: it is the
    /// node's own contribution, with `u` and `v` computed from the epoch
    /// generator and an honestly produced proof.
    pub open spec fn own_message_s(c: Core, m: SigmaMessage) -> bool {
        &&& m.id == c.id
        &&& match epoch_generator_s(m.epoch) {
            Some(g) => m.sigma.u == g2_mul_s(g, c.a_self) && m.sigma.v == pair_s(c.sk, g)
                && honest_proof_s(g, c.g2, c.a_self, m.pi),
            None => false,
        }
    }

    /// Whether epoch `e` holds at least `t + 1` contributions.
    pub open spec fn ready_at(self, e: u64) -> bool {
        self.sigmas@.contains_key(e) && self.sigmas@[e]@.len() >= self.num_faults + 1
    }

    /// Every contribution stored for epoch `e` passed the acceptance gate.
    pub open spec fn inner_ok(self, e: u64) -> bool {
        forall|i: usize| #[trigger]
            self.sigmas@[e]@.contains_key(i) ==> contribution_ok_s(
                self.num_participants as int,
                self.qual@,
                self.commitments@,
                self.g1,
                self.g2,
                e,
                i as int,
                self.sigmas@[e]@[i],
            )
    }

    /// The structural invariant of the engine, except for the settledness
    /// of the current epoch.
    pub open spec fn base_wf(self) -> bool {
        &&& self.commitments@.len() == self.num_participants
        &&& self.qual@.len() == self.num_participants
        &&& self.id < self.num_participants
        &&& 2 * (self.num_faults as int) + 2 <= self.num_participants as int
        &&& forall|i: int|
            0 <= i < self.num_participants ==> (#[trigger] self.commitments@[i]).id == i
        &&& self.commitments@[self.id as int].a_i == self.a_self
        &&& self.commitments@[self.id as int].part1 == g2_mul_s(self.g2, self.a_self)
        &&& self.epoch as nat == self.history@.len()
        &&& forall|k: int|
            0 <= k < self.history@.len() ==> hist_ok_s(
                self.num_participants as int,
                self.num_faults as int,
                self.qual@,
                self.commitments@,
                self.g1,
                self.g2,
                #[trigger] self.history@[k],
                k,
            )
        &&& forall|e: u64| #[trigger]
            self.generators@.contains_key(e) ==> epoch_generator_s(e) == Some(
                self.generators@[e],
            )
        &&& forall|e: u64| #[trigger]
            self.sigmas@.contains_key(e) ==> e >= self.epoch && self.inner_ok(e)
    }

    /// Between steps the current epoch is never left ready: the engine
    /// reconstructs and advances as soon as the threshold is reached (the
    /// final representable epoch cannot advance and is exempt).
    pub open spec fn settled(self) -> bool {
        self.epoch == u64::MAX || !self.ready_at(self.epoch)
    }

    /// The full invariant between steps.
    pub open spec fn wf(self) -> bool {
        self.base_wf() && self.settled()
    }

    /// The immutable per-run configuration of `b` equals that of `a`.
    pub open spec fn same_config(a: Core, b: Core) -> bool {
        &&& b.id == a.id
        &&& b.num_participants == a.num_participants
        &&& b.num_faults == a.num_faults
        &&& b.g1 == a.g1
        &&& b.g2 == a.g2
        &&& b.sk == a.sk
        &&& b.a_self == a.a_self
        &&& b.commitments@ == a.commitments@
        &&& b.qual@ == a.qual@
    }

    /// The structural conditions under which a node with the given id can
    /// be built from a setup.
    pub open spec fn input_ok_s(id: usize, input: Input) -> bool {
        &&& input.sks@.len() == input.num_participants
        &&& input.pks@.len() == input.num_participants
        &&& input.commitments@.len() == input.num_participants
        &&& 2 * (input.degree as int) + 2 <= input.num_participants as int
        &&& id < input.num_participants
        &&& forall|i: int|
            0 <= i < input.num_participants ==> (#[trigger] input.commitments@[i]).id == i
        &&& input.commitments@[id as int].part1 == g2_mul_s(
            input.g2,
            input.commitments@[id as int].a_i,
        )
    }

    /// Builds the engine for participant `id` from a setup, checking the
    /// structural conditions and computing the qualified set; rejects a
    /// setup that fails them.
    pub fn new(id: usize, input: &Input) -> (r: Option<Core>)
        ensures
            match r {
                Some(c) => {
                    &&& Self::input_ok_s(id, *input)
                    &&& c.wf()
                    &&& c.epoch == 0
                    &&& c.history@.len() == 0
                    &&& c.id == id
                    &&& c.num_participants == input.num_participants
                    &&& c.num_faults == input.degree
                    &&& c.g1 == input.g1
                    &&& c.g2 == input.g2
                    &&& c.sk == input.sks@[id as int]
                    &&& c.a_self == input.commitments@[id as int].a_i
                    &&& c.commitments@ == input.commitments@
                    &&& forall|e: u64| !(#[trigger] c.sigmas@.contains_key(e))
                    &&& forall|i: int|
                        0 <= i < input.num_participants ==> c.qual@[i] == qualified_s(
                            input.g1,
                            input.g2,
                            input.pks@[i],
                            input.commitments@[i].part1,
                            input.commitments@[i].part2,
                        )
                },
                None => !Self::input_ok_s(id, *input),
            },
    {
        if input.sks.len() != input.num_participants || input.pks.len() != input.num_participants
            || input.commitments.len() != input.num_participants {
            return None;
        }
        if input.num_participants < 2 || input.degree > (input.num_participants - 2) / 2 {
            return None;
        }
        if id >= input.num_participants {
            return None;
        }
        let mut i: usize = 0;
        let mut commitments: Vec<Commitment> = Vec::new();
        while i < input.num_participants
            invariant
                input.commitments@.len() == input.num_participants,
                0 <= i <= input.num_participants,
                commitments@ == input.commitments@.subrange(0, i as int),
                forall|j: int| 0 <= j < i ==> (#[trigger] input.commitments@[j]).id == j,
            decreases input.num_participants - i,
        {
            if input.commitments[i].id != i {
                return None;
            }
            commitments.push(input.commitments[i]);
            i = i + 1;
        }
        proof {
            assert(commitments@ =~= input.commitments@);
        }
        let a_self = input.commitments[id].a_i;
        if !g2_eq(&input.commitments[id].part1, &g2_mul(&input.g2, &a_self)) {
            return None;
        }
        let qual = compute_qual(input);
        let c = Core {
            id,
            num_participants: input.num_participants,
            num_faults: input.degree,
            g1: input.g1,
            g2: input.g2,
            sk: input.sks[id],
            a_self,
            commitments,
            qual,
            epoch: 0,
            generators: HashMapWithView::new(),
            sigmas: HashMapWithView::new(),
            history: Ghost(Seq::empty()),
        };
        proof {
            assert(2 * (input.degree as int) + 2 <= input.num_participants as int);
        }
        Some(c)
    }

    /// The public commitment parts of a participant.
    pub fn get_commitment(&self, id: usize) -> (r: (G2Elem, G1Elem))
        requires
            id < self.commitments@.len(),
        ensures
            r.0 == self.commitments@[id as int].part1,
            r.1 == self.commitments@[id as int].part2,
    {
        (self.commitments[id].part1, self.commitments[id].part2)
    }

    /// The node's own commitment witness.
    pub fn own_witness(&self) -> (a: FrElem)
        ensures
            a == self.a_self,
    {
        self.a_self
    }

    /// The current epoch number.
    pub fn current_epoch(&self) -> (e: u64)
        ensures
            e == self.epoch,
    {
        self.epoch
    }

    /// How many contributions are stored for epoch `e`.
    pub fn sigma_count(&self, e: u64) -> (c: usize)
        ensures
            c as nat == self.sig_at(e).len(),
    {
        match self.sigmas.get(&e) {
            Some(inner) => inner.len(),
            None => 0,
        }
    }

    /// Returns the generator for the given epoch, memoizing it: on success
    /// the element is cached at its epoch, every other cache entry is left
    /// untouched, and a repeated call returns the cached element, so the
    /// derivation runs at most once per epoch value. `None` only if no
    /// attempt of the bounded derivation yields a point.
    pub fn get_generator(&mut self, e: u64) -> (r: Option<G2Elem>)
        requires
            forall|e2: u64| #[trigger]
                old(self).generators@.contains_key(e2) ==> epoch_generator_s(e2) == Some(
                    old(self).generators@[e2],
                ),
        ensures
            *final(self) == (Core { generators: final(self).generators, ..*old(self) }),
            forall|e2: u64| #[trigger]
                final(self).generators@.contains_key(e2) ==> epoch_generator_s(e2) == Some(
                    final(self).generators@[e2],
                ),
            r == epoch_generator_s(e),
            match r {
                Some(g) => final(self).generators@ == old(self).generators@.insert(e, g),
                None => final(self).generators@ == old(self).generators@,
            },
    {
        match self.generators.get(&e) {
            Some(g) => {
                proof {
                    assert(self.generators@ =~= self.generators@.insert(e, *g));
                }
                Some(*g)
            },
            None => {
                match compute_epoch_generator(e) {
                    Some(g) => {
                        self.generators.insert(e, g);
                        Some(g)
                    },
                    None => None,
                }
            },
        }
    }

    /// Whether the threshold of `t + 1` contributions is reached for
    /// epoch `e`.
    pub fn ready(&self, e: u64) -> (r: bool)
        requires
            (self.num_faults as int) + 1 <= usize::MAX as int,
        ensures
            r == self.ready_at(e),
    {
        match self.sigmas.get(&e) {
            Some(inner) => inner.len() >= self.num_faults + 1,
            None => false,
        }
    }

    /// Runs a message through the acceptance gate and stores its
    /// contribution on success. Touches nothing but the generator cache
    /// and the contribution map of the message's epoch.
    fn try_accept(&mut self, m: &SigmaMessage) -> (acc: bool)
        requires
            old(self).base_wf(),
        ensures
            final(self).base_wf(),
            Core::same_config(*old(self), *final(self)),
            final(self).epoch == old(self).epoch,
            final(self).history@ == old(self).history@,
            acc == old(self).accepts_s(*m),
            acc ==> final(self).sig_at(m.epoch) == old(self).sig_at(m.epoch).insert(
                m.id,
                m.sigma,
            ) && final(self).sigmas@.contains_key(m.epoch),
            forall|e: u64| e != m.epoch ==> final(self).sig_at(e) == old(self).sig_at(e),
            forall|e: u64|
                e != m.epoch ==> final(self).sigmas@.contains_key(e) == old(
                    self,
                ).sigmas@.contains_key(e),
            !acc ==> final(self).sigmas@ == old(self).sigmas@,
            forall|e: u64| #[trigger]
                final(self).generators@.contains_key(e) ==> old(self).generators@.contains_key(e)
                    || e == m.epoch,
    {
        if m.epoch < self.epoch {
            return false;
        }
        if m.id >= self.num_participants {
            return false;
        }
        if !self.qual[m.id] {
            return false;
        }
        let g = match self.get_generator(m.epoch) {
            Some(g) => g,
            None => {
                return false;
            },
        };
        if !dleq_verify(&g, &self.g2, &m.sigma.u, &self.commitments[m.id].part1, &m.pi) {
            return false;
        }
        let prod = pair2(
            &g1_neg(&self.commitments[m.id].part2),
            &g,
            &g1_neg(&self.g1),
            &m.sigma.u,
        );
        if !gt_is_one(&gt_mul(&m.sigma.v, &prod)) {
            return false;
        }
        let mut inner = match self.sigmas.remove(&m.epoch) {
            Some(x) => x,
            None => HashMapWithView::new(),
        };
        inner.insert(m.id, m.sigma);
        self.sigmas.insert(m.epoch, inner);
        proof {
            assert(final(self).sig_at(m.epoch) =~= old(self).sig_at(m.epoch).insert(
                m.id,
                m.sigma,
            ));
            assert forall|e: u64| e != m.epoch implies self.sig_at(e) == old(self).sig_at(e) by {
                if old(self).sigmas@.contains_key(e) {
                    assert(self.sigmas@[e] == old(self).sigmas@[e]);
                }
            }
            assert forall|e: u64| #[trigger]
                self.sigmas@.contains_key(e) implies e >= self.epoch && self.inner_ok(e) by {
                if e == m.epoch {
                    assert forall|i: usize| #[trigger]
                        self.sigmas@[e]@.contains_key(i) implies contribution_ok_s(
                        self.num_participants as int,
                        self.qual@,
                        self.commitments@,
                        self.g1,
                        self.g2,
                        e,
                        i as int,
                        self.sigmas@[e]@[i],
                    ) by {
                        if i == m.id {
                            assert(self.sigmas@[e]@[i] == m.sigma);
                            assert(exists|pi: DleqProof|
                                dleq_verify_s(
                                    g,
                                    self.g2,
                                    m.sigma.u,
                                    self.commitments@[i as int].part1,
                                    pi,
                                )) by {
                                assert(dleq_verify_s(
                                    g,
                                    self.g2,
                                    m.sigma.u,
                                    self.commitments@[i as int].part1,
                                    m.pi,
                                ));
                            }
                        } else {
                            assert(old(self).sigmas@.contains_key(e) && old(
                                self,
                            ).sigmas@[e]@.contains_key(i));
                            assert(self.sigmas@[e]@[i] == old(self).sigmas@[e]@[i]);
                            assert(old(self).inner_ok(e));
                        }
                    }
                } else {
                    assert(old(self).sigmas@.contains_key(e));
                    assert(old(self).inner_ok(e));
                    assert(self.sigmas@[e] == old(self).sigmas@[e]);
                }
            }
        }
        true
    }

    /// Reconstructs and emits the beacon for the current (ready) epoch,
    /// advances, broadcasts the node's own contribution for the new epoch
    /// and accepts it, and keeps going while buffered contributions leave
    /// the new epoch ready.
    fn emit_cascade(&mut self) -> (out: StepOut)
        requires
            old(self).base_wf(),
            old(self).ready_at(old(self).epoch),
            old(self).epoch < u64::MAX,
        ensures
            final(self).wf(),
            Core::same_config(*old(self), *final(self)),
            final(self).epoch as int == old(self).epoch as int + out.beacons@.len(),
            out.beacons@.len() >= 1,
            old(self).history@.is_prefix_of(final(self).history@),
            forall|k: int|
                0 <= k < out.beacons@.len() ==> {
                    &&& (#[trigger] out.beacons@[k]).epoch as int == old(self).epoch as int + k
                    &&& out.beacons@[k].digest@ == final(self).history@[old(self).epoch as int
                        + k].digest
                    &&& out.beacons@[k].digest@.len() == BEACON_BYTES
                },
            final(self).history@[old(self).epoch as int].contributors == old(self).sig_at(
                old(self).epoch,
            ),
            forall|j: int|
                0 <= j < out.broadcasts@.len() ==> {
                    &&& Core::own_message_s(*old(self), #[trigger] out.broadcasts@[j])
                    &&& old(self).epoch < out.broadcasts@[j].epoch <= final(self).epoch
                },
            // the epochs this cascade closed are purged: neither their
            // contribution maps nor their generator-cache entries linger
            forall|k: u64|
                old(self).epoch <= k < final(self).epoch ==> !final(self).sigmas@.contains_key(k)
                    && !final(self).generators@.contains_key(k),
            // the own contribution broadcast for the epoch the cascade
            // settles in is stored whenever it passes the acceptance gate
            (out.broadcasts@.len() > 0 && out.broadcasts@.last().epoch == final(self).epoch
                && final(self).accepts_s(out.broadcasts@.last())) ==> {
                &&& final(self).sig_at(final(self).epoch).contains_key(final(self).id)
                &&& final(self).sig_at(final(self).epoch)[final(self).id]
                    == out.broadcasts@.last().sigma
            },
    {
        let mut out = StepOut { beacons: Vec::new(), broadcasts: Vec::new() };
        let ghost pre = *old(self);
        let mut go: bool = true;
        while go
            invariant
                self.base_wf(),
                Core::same_config(pre, *self),
                go ==> self.ready_at(self.epoch) && self.epoch < u64::MAX,
                !go ==> self.settled(),
                pre.epoch <= self.epoch,
                self.epoch as int == pre.epoch as int + out.beacons@.len(),
                go || out.beacons@.len() >= 1,
                out.beacons@.len() == 0 ==> *self == pre,
                pre.history@.is_prefix_of(self.history@),
                forall|k: int|
                    0 <= k < out.beacons@.len() ==> {
                        &&& (#[trigger] out.beacons@[k]).epoch as int == pre.epoch as int + k
                        &&& out.beacons@[k].digest@ == self.history@[pre.epoch as int + k].digest
                        &&& out.beacons@[k].digest@.len() == BEACON_BYTES
                    },
                out.beacons@.len() >= 1 ==> self.history@[pre.epoch as int].contributors
                    == pre.sig_at(pre.epoch),
                forall|j: int|
                    0 <= j < out.broadcasts@.len() ==> {
                        &&& Core::own_message_s(pre, #[trigger] out.broadcasts@[j])
                        &&& pre.epoch < out.broadcasts@[j].epoch <= self.epoch
                    },
                forall|k: u64|
                    pre.epoch <= k < self.epoch ==> !self.generators@.contains_key(k),
                (out.broadcasts@.len() > 0 && out.broadcasts@.last().epoch == self.epoch
                    && self.accepts_s(out.broadcasts@.last())) ==> {
                    &&& self.sig_at(self.epoch).contains_key(self.id)
                    &&& self.sig_at(self.epoch)[self.id] == out.broadcasts@.last().sigma
                },
            decreases u64::MAX - self.epoch,
        {
            let e = self.epoch;
            let ghost m0 = self.sig_at(e);
            let n = self.num_participants;
            let mut pairs: Vec<(u64, GtElem)> = Vec::new();
            let inner = match self.sigmas.get(&e) {
                Some(x) => x,
                None => vstd::pervasive::unreached(),
            };
            let mut i: usize = 0;
            while i < n
                invariant
                    0 <= i <= n,
                    inner@ == m0,
                    pairs@ == recon_pairs_s(m0, i as int),
                decreases n - i,
            {
                match inner.get(&i) {
                    Some(p) => {
                        pairs.push(((i as u64) + 1, p.v));
                    },
                    None => {},
                }
                i = i + 1;
            }
            proof {
                lemma_recon_pairs_increasing(m0, n as int);
                assert(distinct_points_s(pairs@));
                lemma_map_key_exists(m0);
                let i0 = choose|i: usize| m0.contains_key(i);
                assert(self.inner_ok(e));
                assert(contribution_ok_s(
                    self.num_participants as int,
                    self.qual@,
                    self.commitments@,
                    self.g1,
                    self.g2,
                    e,
                    i0 as int,
                    m0[i0],
                ));
                lemma_recon_pairs_nonempty(m0, n as int, i0);
            }
            let sigma = lagrange_interpolate_gt(&pairs);
            let digest = compute_beacon_digest(&sigma);
            let ghost em = Emission { epoch: e, contributors: m0, value: sigma, digest: digest@ };
            out.beacons.push(BeaconValue { epoch: e, digest });
            let ghost mid = *self;
            self.history = Ghost(self.history@.push(em));
            self.sigmas.remove(&e);
            self.generators.remove(&e);
            self.epoch = self.epoch + 1;
            proof {
                assert(hist_ok_s(
                    self.num_participants as int,
                    self.num_faults as int,
                    self.qual@,
                    self.commitments@,
                    self.g1,
                    self.g2,
                    em,
                    e as int,
                )) by {
                    assert forall|i2: usize| #[trigger]
                        em.contributors.contains_key(i2) implies contribution_ok_s(
                        self.num_participants as int,
                        self.qual@,
                        self.commitments@,
                        self.g1,
                        self.g2,
                        em.epoch,
                        i2 as int,
                        em.contributors[i2],
                    ) by {
                        assert(mid.inner_ok(e));
                    }
                }
                assert forall|e2: u64| #[trigger]
                    self.sigmas@.contains_key(e2) implies e2 >= self.epoch && self.inner_ok(
                    e2,
                ) by {
                    assert(mid.sigmas@.contains_key(e2) && e2 != e);
                    assert(mid.inner_ok(e2));
                    assert(self.sigmas@[e2] == mid.sigmas@[e2]);
                }
            }
            match self.get_generator(self.epoch) {
                Some(g) => {
                    let u = g2_mul(&g, &self.a_self);
                    let v = pair(&self.sk, &g);
                    let pi = dleq_prove(&g, &self.g2, &self.a_self);
                    let msg = SigmaMessage {
                        epoch: self.epoch,
                        id: self.id,
                        sigma: SigmaPair { u, v },
                        pi,
                    };
                    out.broadcasts.push(msg);
                    proof {
                        assert(Core::own_message_s(pre, msg));
                    }
                    let _ = self.try_accept(&msg);
                },
                None => {},
            }
            go = if self.epoch < u64::MAX {
                self.ready(self.epoch)
            } else {
                false
            };
        }
        out
    }

    /// The step relation that one `handle_sigma` call establishes between
    /// the state before and after it, with the number of beacons and
    /// broadcasts it produced. Together with `wf`, it pins the behavior on
    /// every path that emits no beacon, and ties any emission to a message
    /// for the current epoch.
    pub open spec fn handle_rel(
        pre: Core,
        m: SigmaMessage,
        post: Core,
        nbeacons: int,
        nbroadcasts: int,
    ) -> bool {
        &&& Core::same_config(pre, post)
        &&& nbeacons >= 0
        &&& nbroadcasts >= 0
        &&& post.epoch as int == pre.epoch as int + nbeacons
        &&& (nbeacons == 0 ==> nbroadcasts == 0)
        &&& (nbeacons > 0 ==> m.epoch == pre.epoch && pre.accepts_s(m))
        &&& (m.epoch < pre.epoch ==> post == pre && nbeacons == 0)
        &&& (!pre.accepts_s(m) ==> {
            &&& post.epoch == pre.epoch
            &&& post.history@ == pre.history@
            &&& (forall|e: u64| post.sig_at(e) == pre.sig_at(e))
            &&& (forall|e: u64|
                post.sigmas@.contains_key(e) == pre.sigmas@.contains_key(e))
            &&& nbeacons == 0
        })
        &&& (pre.accepts_s(m) && (m.epoch > pre.epoch || nbeacons == 0) ==> {
            &&& post.epoch == pre.epoch
            &&& post.history@ == pre.history@
            &&& post.sig_at(m.epoch) == pre.sig_at(m.epoch).insert(m.id, m.sigma)
            &&& post.sigmas@.contains_key(m.epoch)
            &&& (forall|e: u64| e != m.epoch ==> post.sig_at(e) == pre.sig_at(e))
            &&& (forall|e: u64|
                e != m.epoch ==> post.sigmas@.contains_key(e) == pre.sigmas@.contains_key(e))
            &&& nbeacons == 0
        })
        &&& (pre.accepts_s(m) && m.epoch == pre.epoch && (pre.sig_at(m.epoch).insert(
            m.id,
            m.sigma,
        ).len() < pre.num_faults + 1 || pre.epoch == u64::MAX) ==> nbeacons == 0)
    }

    /// Ingests one message: drops it if stale, unqualified, out of range
    /// or cryptographically invalid; stores it otherwise; and, when it
    /// completes the threshold for the current epoch, reconstructs, emits
    /// and cascades.
    pub fn handle_sigma(&mut self, m: &SigmaMessage) -> (out: StepOut)
        requires
            old(self).wf(),
        ensures
            final(self).wf(),
            Core::handle_rel(
                *old(self),
                *m,
                *final(self),
                out.beacons@.len() as int,
                out.broadcasts@.len() as int,
            ),
            old(self).history@.is_prefix_of(final(self).history@),
            forall|k: int|
                0 <= k < out.beacons@.len() ==> {
                    &&& (#[trigger] out.beacons@[k]).epoch as int == old(self).epoch as int + k
                    &&& out.beacons@[k].digest@ == final(self).history@[old(self).epoch as int
                        + k].digest
                    &&& out.beacons@[k].digest@.len() == BEACON_BYTES
                },
            (old(self).accepts_s(*m) && m.epoch == old(self).epoch && old(self).sig_at(
                m.epoch,
            ).insert(m.id, m.sigma).len() >= old(self).num_faults + 1 && old(self).epoch
                < u64::MAX) ==> {
                &&& out.beacons@.len() >= 1
                &&& final(self).history@[old(self).epoch as int].contributors == old(
                    self,
                ).sig_at(old(self).epoch).insert(m.id, m.sigma)
            },
            forall|j: int|
                0 <= j < out.broadcasts@.len() ==> {
                    &&& Core::own_message_s(*old(self), #[trigger] out.broadcasts@[j])
                    &&& old(self).epoch < out.broadcasts@[j].epoch <= final(self).epoch
                },
            // the epochs this step closed are purged: neither their
            // contribution maps nor their generator-cache entries linger
            forall|k: u64|
                old(self).epoch <= k < final(self).epoch ==> !final(self).sigmas@.contains_key(k)
                    && !final(self).generators@.contains_key(k),
            // the own contribution broadcast for the epoch the step
            // settles in is stored whenever it passes the acceptance gate
            (out.broadcasts@.len() > 0 && out.broadcasts@.last().epoch == final(self).epoch
                && final(self).accepts_s(out.broadcasts@.last())) ==> {
                &&& final(self).sig_at(final(self).epoch).contains_key(final(self).id)
                &&& final(self).sig_at(final(self).epoch)[final(self).id]
                    == out.broadcasts@.last().sigma
            },
    {
        if m.epoch < self.epoch {
            return StepOut { beacons: Vec::new(), broadcasts: Vec::new() };
        }
        let acc = self.try_accept(m);
        if acc && m.epoch == self.epoch && self.epoch < u64::MAX && self.ready(self.epoch) {
            let out = self.emit_cascade();
            out
        } else {
            proof {
                if acc && m.epoch != old(self).epoch {
                    assert(self.sig_at(self.epoch) == old(self).sig_at(self.epoch));
                    assert(self.sigmas@.contains_key(self.epoch) == old(
                        self,
                    ).sigmas@.contains_key(self.epoch));
                    if self.sigmas@.contains_key(self.epoch) {
                        assert(self.sigmas@[self.epoch]@ == self.sig_at(self.epoch));
                        assert(old(self).sigmas@[self.epoch]@ == old(self).sig_at(self.epoch));
                    }
                }
            }
            StepOut { beacons: Vec::new(), broadcasts: Vec::new() }
        }
    }

    /// Enters the current epoch: computes and broadcasts the node's own
    /// contribution, accepts it through the same gate as peer messages,
    /// and emits at once if buffered contributions already complete the
    /// threshold.
    pub fn start(&mut self) -> (out: StepOut)
        requires
            old(self).wf(),
        ensures
            final(self).wf(),
            Core::same_config(*old(self), *final(self)),
            final(self).epoch as int == old(self).epoch as int + out.beacons@.len(),
            old(self).history@.is_prefix_of(final(self).history@),
            forall|k: int|
                0 <= k < out.beacons@.len() ==> {
                    &&& (#[trigger] out.beacons@[k]).epoch as int == old(self).epoch as int + k
                    &&& out.beacons@[k].digest@ == final(self).history@[old(self).epoch as int
                        + k].digest
                    &&& out.beacons@[k].digest@.len() == BEACON_BYTES
                },
            forall|j: int|
                0 <= j < out.broadcasts@.len() ==> {
                    &&& Core::own_message_s(*old(self), #[trigger] out.broadcasts@[j])
                    &&& old(self).epoch <= out.broadcasts@[j].epoch <= final(self).epoch
                },
            epoch_generator_s(old(self).epoch) is Some ==> out.broadcasts@.len() >= 1
                && out.broadcasts@[0].epoch == old(self).epoch,
            // when no beacon fires, at most the node's own contribution
            // for the current epoch was added, and nothing else moved
            // when no beacon fires, exactly the node's own contribution is
            // stored if it passes the acceptance gate, and nothing else moves
            out.beacons@.len() == 0 ==> {
                &&& final(self).epoch == old(self).epoch
                &&& final(self).history@ == old(self).history@
                &&& match epoch_generator_s(old(self).epoch) {
                    Some(g) => {
                        &&& out.broadcasts@.len() == 1
                        &&& (old(self).accepts_s(out.broadcasts@[0]) ==> final(self).sig_at(
                            old(self).epoch,
                        ) == old(self).sig_at(old(self).epoch).insert(
                            old(self).id,
                            out.broadcasts@[0].sigma,
                        ))
                        &&& (!old(self).accepts_s(out.broadcasts@[0]) ==> final(self).sig_at(
                            old(self).epoch,
                        ) == old(self).sig_at(old(self).epoch))
                    },
                    None => final(self).sig_at(old(self).epoch) == old(self).sig_at(
                        old(self).epoch,
                    ),
                }
                &&& forall|e: u64|
                    e != old(self).epoch ==> final(self).sig_at(e) == old(self).sig_at(e)
            },
            // the epochs this step closed are purged: neither their
            // contribution maps nor their generator-cache entries linger
            forall|k: u64|
                old(self).epoch <= k < final(self).epoch ==> !final(self).sigmas@.contains_key(k)
                    && !final(self).generators@.contains_key(k),
            // the own contribution broadcast for the epoch the step
            // settles in is stored whenever it passes the acceptance gate
            (out.broadcasts@.len() > 0 && out.broadcasts@.last().epoch == final(self).epoch
                && final(self).accepts_s(out.broadcasts@.last())) ==> {
                &&& final(self).sig_at(final(self).epoch).contains_key(final(self).id)
                &&& final(self).sig_at(final(self).epoch)[final(self).id]
                    == out.broadcasts@.last().sigma
            },
    {
        let mut out = StepOut { beacons: Vec::new(), broadcasts: Vec::new() };
        match self.get_generator(self.epoch) {
            Some(g) => {
                let u = g2_mul(&g, &self.a_self);
                let v = pair(&self.sk, &g);
                let pi = dleq_prove(&g, &self.g2, &self.a_self);
                let msg = SigmaMessage {
                    epoch: self.epoch,
                    id: self.id,
                    sigma: SigmaPair { u, v },
                    pi,
                };
                out.broadcasts.push(msg);
                proof {
                    assert(Core::own_message_s(*old(self), msg));
                }
                let _ = self.try_accept(&msg);
                if self.epoch < u64::MAX && self.ready(self.epoch) {
                    let mut rest = self.emit_cascade();
                    out.beacons.append(&mut rest.beacons);
                    out.broadcasts.append(&mut rest.broadcasts);
                }
            },
            None => {},
        }
        out
    }

    /// The generator cache holds only correct values.
    pub open spec fn cache_ok(self) -> bool {
        forall|e: u64| #[trigger]
            self.generators@.contains_key(e) ==> epoch_generator_s(e) == Some(self.generators@[e])
    }

    /// Computes the node's own contribution and proof for epoch `e`. The
    /// contribution is pinned to the epoch generator and the node's
    /// witness; the proof has the honest-prover shape.
    pub fn prove(&mut self, e: u64) -> (r: Option<(SigmaPair, DleqProof)>)
        requires
            old(self).cache_ok(),
        ensures
            *final(self) == (Core { generators: final(self).generators, ..*old(self) }),
            final(self).cache_ok(),
            match r {
                Some(sp) => match epoch_generator_s(e) {
                    Some(g) => sp.0.u == g2_mul_s(g, old(self).a_self) && sp.0.v == pair_s(
                        old(self).sk,
                        g,
                    ) && honest_proof_s(g, old(self).g2, old(self).a_self, sp.1),
                    None => false,
                },
                None => epoch_generator_s(e) is None,
            },
    {
        match self.get_generator(e) {
            Some(g) => {
                let u = g2_mul(&g, &self.a_self);
                let v = pair(&self.sk, &g);
                let pi = dleq_prove(&g, &self.g2, &self.a_self);
                Some((SigmaPair { u, v }, pi))
            },
            None => None,
        }
    }

    /// Checks the DLEQ proof of a contribution claimed by participant
    /// `id` for epoch `e`, against the bases `(g_r(e), g2)` and the
    /// statement `(u, part1_id)`.
    pub fn verify(&mut self, sigma: &SigmaPair, pi: &DleqProof, e: u64, id: usize) -> (ok: bool)
        requires
            old(self).cache_ok(),
            id < old(self).commitments@.len(),
        ensures
            *final(self) == (Core { generators: final(self).generators, ..*old(self) }),
            final(self).cache_ok(),
            ok == match epoch_generator_s(e) {
                Some(g) => dleq_verify_s(
                    g,
                    old(self).g2,
                    sigma.u,
                    old(self).commitments@[id as int].part1,
                    *pi,
                ),
                None => false,
            },
    {
        match self.get_generator(e) {
            Some(g) => dleq_verify(&g, &self.g2, &sigma.u, &self.commitments[id].part1, pi),
            None => false,
        }
    }

    /// Checks the pairing-product consistency of a contribution claimed
    /// by participant `id` for epoch `e`:
    /// `v · e(−part2_id, g_r(e)) · e(−g1, u) = 1`.
    pub fn consistency(&mut self, sigma: &SigmaPair, e: u64, id: usize) -> (ok: bool)
        requires
            old(self).cache_ok(),
            id < old(self).commitments@.len(),
        ensures
            *final(self) == (Core { generators: final(self).generators, ..*old(self) }),
            final(self).cache_ok(),
            ok == match epoch_generator_s(e) {
                Some(g) => consistency_ok_s(
                    old(self).commitments@,
                    old(self).g1,
                    g,
                    id as int,
                    *sigma,
                ),
                None => false,
            },
    {
        match self.get_generator(e) {
            Some(g) => {
                let prod = pair2(
                    &g1_neg(&self.commitments[id].part2),
                    &g,
                    &g1_neg(&self.g1),
                    &sigma.u,
                );
                gt_is_one(&gt_mul(&sigma.v, &prod))
            },
            None => false,
        }
    }
}

/// The epoch never decreases, and one step advances it by exactly the
/// number of beacons the step emitted.
pub proof fn lemma_epoch_monotonic(
    pre: Core,
    m: SigmaMessage,
    post: Core,
    nbeacons: int,
    nbroadcasts: int,
)
    requires
        Core::handle_rel(pre, m, post, nbeacons, nbroadcasts),
    ensures
        post.epoch >= pre.epoch,
        post.epoch as int == pre.epoch as int + nbeacons,
{
}

/// A message for a future epoch never triggers an emission: it is only
/// buffered, and the epoch and the emission history stay as they were.
pub proof fn lemma_future_message_safety(
    pre: Core,
    m: SigmaMessage,
    post: Core,
    nbeacons: int,
    nbroadcasts: int,
)
    requires
        Core::handle_rel(pre, m, post, nbeacons, nbroadcasts),
        m.epoch > pre.epoch,
    ensures
        nbeacons == 0,
        post.epoch == pre.epoch,
        post.history@ == pre.history@,
{
}

/// The epoch counter counts exactly the beacons emitted: it starts at
/// zero, and every emission advances it by one, so it always equals the
/// length of the emission history.
pub proof fn lemma_epoch_counts_beacons(c: Core)
    requires
        c.wf(),
    ensures
        c.epoch as nat == c.history@.len(),
{
}

/// A beacon is only ever emitted from at least `t + 1` accepted
/// contributions for its epoch.
pub proof fn lemma_emission_threshold(c: Core, k: int)
    requires
        c.wf(),
        0 <= k < c.history@.len(),
    ensures
        c.history@[k].contributors.len() >= c.num_faults + 1,
        c.history@[k].epoch == k,
{
}

/// The digest of an emission is a function of its contribution map and
/// the participant count alone: the hash of the element reconstructed
/// from the map's evaluation pairs.
pub proof fn lemma_emission_digest(c: Core, k: int)
    requires
        c.wf(),
        0 <= k < c.history@.len(),
    ensures
        c.history@[k].digest == beacon_digest_s(
            reconstruct_s(recon_pairs_s(c.history@[k].contributors, c.num_participants as int)),
        ),
{
}

/// Every stored contribution passed the acceptance gate: its sender is
/// in range and qualified, the consistency equation holds, and some proof
/// for it passes DLEQ verification.
pub proof fn lemma_acceptance_soundness(c: Core, e: u64, i: usize)
    requires
        c.wf(),
        c.sigmas@.contains_key(e),
        c.sigmas@[e]@.contains_key(i),
    ensures
        contribution_ok_s(
            c.num_participants as int,
            c.qual@,
            c.commitments@,
            c.g1,
            c.g2,
            e,
            i as int,
            c.sigmas@[e]@[i],
        ),
{
    assert(c.inner_ok(e));
}

/// Every contribution a beacon was reconstructed from passed the
/// acceptance gate as well.
pub proof fn lemma_emission_soundness(c: Core, k: int, i: usize)
    requires
        c.wf(),
        0 <= k < c.history@.len(),
        c.history@[k].contributors.contains_key(i),
    ensures
        contribution_ok_s(
            c.num_participants as int,
            c.qual@,
            c.commitments@,
            c.g1,
            c.g2,
            c.history@[k].epoch,
            i as int,
            c.history@[k].contributors[i],
        ),
{
}

/// Two nodes that emit a beacon for the same epoch from the same
/// contribution map derive byte-identical digests: the digest is a
/// function of the contributions alone.
pub proof fn lemma_beacon_agreement(a: Core, b: Core, k: int)
    requires
        a.wf(),
        b.wf(),
        a.num_participants == b.num_participants,
        0 <= k < a.history@.len(),
        0 <= k < b.history@.len(),
        a.history@[k].contributors == b.history@[k].contributors,
    ensures
        a.history@[k].digest == b.history@[k].digest,
{
}

/// The epoch generator depends on the epoch number alone: any two nodes
/// holding a generator for the same epoch hold the same element.
pub proof fn lemma_generator_determinism(a: Core, b: Core, e: u64)
    requires
        a.wf(),
        b.wf(),
        a.generators@.contains_key(e),
        b.generators@.contains_key(e),
    ensures
        a.generators@[e] == b.generators@[e],
{
}

/// Delivering the same message twice is equivalent to delivering it
/// once: the second delivery changes neither the epoch, nor the emission
/// history, nor any contribution map, and produces no output.
pub proof fn lemma_duplicate_delivery(
    s0: Core,
    m: SigmaMessage,
    s1: Core,
    s2: Core,
    b1: int,
    r1: int,
    b2: int,
    r2: int,
)
    requires
        s0.wf(),
        s1.wf(),
        s2.wf(),
        Core::handle_rel(s0, m, s1, b1, r1),
        Core::handle_rel(s1, m, s2, b2, r2),
    ensures
        b2 == 0,
        r2 == 0,
        s2.epoch == s1.epoch,
        s2.history@ == s1.history@,
        forall|e: u64| s2.sig_at(e) == s1.sig_at(e),
{
    if m.epoch < s0.epoch {
        // stale at the first delivery, so the state never changed and it
        // is stale at the second as well
        assert(s1 == s0);
    } else if b1 > 0 {
        // the first delivery emitted, so the epoch advanced past the
        // message's epoch and the second delivery drops it as stale
        assert(m.epoch < s1.epoch);
        assert(s2 == s1);
    } else if !s0.accepts_s(m) {
        // rejected at the first delivery; acceptance depends only on the
        // configuration and the epoch, both unchanged, so it rejects again
        assert(!s1.accepts_s(m));
    } else {
        // accepted without emission: the contribution is stored, and
        // storing it again changes nothing
        assert(s1.accepts_s(m));
        assert(s1.sig_at(m.epoch) == s0.sig_at(m.epoch).insert(m.id, m.sigma));
        assert(s1.sig_at(m.epoch).insert(m.id, m.sigma) =~= s1.sig_at(m.epoch));
        if m.epoch == s1.epoch {
            // the engine is settled, so the epoch is at its maximum or the
            // threshold is not reached; either way no emission follows
            if s1.epoch != u64::MAX {
                assert(!s1.ready_at(s1.epoch));
                assert(s1.sigmas@.contains_key(m.epoch));
                assert(s1.sigmas@[m.epoch]@ == s1.sig_at(m.epoch));
                assert(s1.sig_at(m.epoch).insert(m.id, m.sigma).len() < s1.num_faults + 1);
            }
            assert(b2 == 0);
        } else {
            assert(m.epoch > s1.epoch);
            assert(b2 == 0);
        }
        assert forall|e: u64| s2.sig_at(e) == s1.sig_at(e) by {
            if e != m.epoch {
            } else {
                assert(s2.sig_at(e) == s1.sig_at(e).insert(m.id, m.sigma));
            }
        }
    }
}

} // verus!
