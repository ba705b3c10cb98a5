//! Generation of a proof. The proposer walks the committee hop by hop: it
//! asks the hop's peer to sign the challenge, counter-signs the answer, and
//! lets the counter-signature pick the next hop. Asking a peer is the
//! caller's part; what to ask, and what follows from an answer, is decided
//! here.

use crate::committee::select;
use crate::committee::selected;
use crate::encoding::encode_one;
use crate::encoding::encode_three;
use crate::encoding::encode_two;
use crate::error::PoiError;
use crate::hash::hash;
use crate::node::keys_of;
use crate::node::Node;
use crate::signature::sign_word;
use crate::signature::SignatureScheme;
use crate::tour::tour_length;
use crate::tour::tour_length_of;
use crate::validator::challenge;
use crate::validator::committee_seated;
use crate::validator::counter_input;
use crate::validator::element_valid;
use crate::validator::hop_peer;
use crate::validator::proof_valid;
use crate::validator::seed_input;
use crate::validator::valid_up_to;
use crate::validator::walk_hash;
use crate::validator::Claim;
use vstd::prelude::*;

verus! {

/// A hop is given up, and the generation with it, when this many requests in
/// a row have failed.
pub const MAX_ATTEMPTS: u8 = 3;

/// A generation under way.
pub struct Generation {
    proof: Vec<u64>,
    committee: Vec<usize>,
    length: u64,
    current_hash: u64,
    dependency: u64,
    message: u64,
    failures: u8,
}

/// What a generation under way holds, as mathematical values.
pub struct GenerationView {
    /// The seed and the pairs of signatures collected so far.
    pub proof: Seq<u64>,
    /// The committee, as positions in the node set.
    pub committee: Seq<usize>,
    /// The tour length.
    pub length: nat,
    pub dependency: u64,
    pub message: u64,
    /// The failed requests at the current hop.
    pub failures: nat,
}

/// What came back from the peer that was asked.
pub enum Event {
    /// The peer's signature of the challenge.
    Signed(u64),
    /// No usable answer: an error, a timeout, a malformed response.
    Failed,
}

/// Where a generation stands after an event.
pub enum Progress {
    /// More hops remain; the next request is that of the generation within.
    Pending(Generation),
    /// The tour is over and this is the proof.
    Complete(Vec<u64>),
    /// The generation is given up and nothing of it is handed out.
    Aborted(PoiError),
}

impl View for Generation {
    type V = GenerationView;

    closed spec fn view(&self) -> GenerationView {
        GenerationView {
            proof: self.proof@,
            committee: self.committee@,
            length: self.length as nat,
            dependency: self.dependency,
            message: self.message,
            failures: self.failures as nat,
        }
    }
}

/// The number of hops that a proof so far has completed.
pub open spec fn hops_done(proof: Seq<u64>) -> int {
    (proof.len() - 1) / 2
}

impl Generation {
    /// The generation is at the start of a hop that is still to be made, and
    /// its rolling hash is that of the walk so far.
    pub closed spec fn wf(&self) -> bool {
        &&& self.proof@.len() % 2 == 1
        &&& self.proof@.len() < 2 * self.length + 1
        &&& self.committee@.len() > 0
        &&& self.failures < MAX_ATTEMPTS
        &&& self.current_hash == walk_hash(self.proof@, self.message, hops_done(self.proof@))
    }

    /// Starts a generation from the seed `s0`, the proposer's signature of
    /// `dependency`: selects the committee and fixes the tour length. It
    /// fails where selection fails.
    pub fn begin(
        s0: u64,
        dependency: u64,
        message_root: u64,
        sample: u64,
        network_nodes: &Vec<Node>,
    ) -> (r: Result<Generation, PoiError>)
        ensures
            match r {
                Ok(generation) => {
                    &&& generation.wf()
                    &&& committee_seated(keys_of(network_nodes@), s0)
                    &&& generation@ == (GenerationView {
                        proof: seq![s0],
                        committee: selected(s0, keys_of(network_nodes@)),
                        length: tour_length_of(sample, network_nodes@.len()),
                        dependency,
                        message: message_root,
                        failures: 0,
                    })
                },
                Err(e) => if network_nodes@.len() < 2 {
                    e == PoiError::DegenerateNetwork
                } else {
                    e == PoiError::DrawsExhausted && !committee_seated(keys_of(network_nodes@), s0)
                },
            },
    {
        let committee = match select(s0, network_nodes) {
            Ok(committee) => committee,
            Err(e) => {
                return Err(e);
            },
        };
        let length = tour_length(network_nodes.len() as u64, sample);
        let proof: Vec<u64> = vec![s0];
        assert(proof@ =~= seq![s0]);
        let current_hash = hash(encode_two(s0, message_root).as_slice());
        Ok(
            Generation {
                proof,
                committee,
                length,
                current_hash,
                dependency,
                message: message_root,
                failures: 0,
            },
        )
    }

    /// The request to make now: the committee member to ask, as a position in
    /// the node set, and the challenge it is to sign.
    pub fn request(&self) -> (r: (usize, Vec<u8>))
        requires
            self.wf(),
        ensures
            r.0 == hop_peer(
                self@.committee,
                walk_hash(self@.proof, self@.message, hops_done(self@.proof)),
            ),
            r.1@ == challenge(
                walk_hash(self@.proof, self@.message, hops_done(self@.proof)),
                self@.dependency,
                self@.message,
            ),
    {
        let next_hop: usize = (self.current_hash % (self.committee.len() as u64)) as usize;
        let peer = self.committee[next_hop];
        (peer, encode_three(self.current_hash, self.dependency, self.message))
    }

    /// Takes the outcome of the request. A signature is counter-signed with
    /// `private_key` and both join the proof, which is complete once it holds
    /// two signatures for each hop of the tour. A failure is counted, and the
    /// generation is given up with `OracleUnavailable` at `MAX_ATTEMPTS`
    /// failures in a row.
    pub fn advance<S: SignatureScheme>(
        self,
        scheme: &S,
        private_key: &str,
        event: Event,
    ) -> (next: Progress)
        requires
            self.wf(),
        ensures
            match event {
                Event::Signed(signature) => {
                    let grown = match next {
                        Progress::Pending(generation) => generation@.proof,
                        Progress::Complete(proof) => proof@,
                        Progress::Aborted(_) => Seq::empty(),
                    };
                    &&& grown.len() == self@.proof.len() + 2
                    &&& grown.take(self@.proof.len() as int) == self@.proof
                    &&& grown[self@.proof.len() as int] == signature
                    &&& scheme.accepts(
                        scheme.public_key_of(private_key@),
                        grown[self@.proof.len() as int + 1],
                        counter_input(signature),
                    )
                    &&& match next {
                        Progress::Pending(generation) => {
                            &&& generation.wf()
                            &&& grown.len() < 2 * self@.length + 1
                            &&& generation@ == (GenerationView {
                                proof: grown,
                                failures: 0,
                                ..self@
                            })
                        },
                        Progress::Complete(_) => grown.len() == 2 * self@.length + 1,
                        Progress::Aborted(_) => false,
                    }
                },
                Event::Failed => if self@.failures + 1 >= MAX_ATTEMPTS {
                    next matches Progress::Aborted(e) && e == PoiError::OracleUnavailable
                } else {
                    &&& next matches Progress::Pending(generation)
                    &&& generation.wf()
                    &&& generation@ == (GenerationView { failures: self@.failures + 1, ..self@ })
                },
            },
    {
        let mut state = self;
        match event {
            Event::Signed(signature) => {
                let counter = sign_word(scheme, private_key, signature);
                let ghost before = state.proof@;
                state.proof.push(signature);
                state.proof.push(counter);
                assert(state.proof@.take(before.len() as int) =~= before);
                if state.proof.len() as u128 == 2 * (state.length as u128) + 1 {
                    Progress::Complete(state.proof)
                } else {
                    state.current_hash = hash(encode_one(counter).as_slice());
                    state.failures = 0;
                    assert(hops_done(state.proof@) * 2 == before.len() + 1);
                    Progress::Pending(state)
                }
            },
            Event::Failed => {
                if state.failures + 1 >= MAX_ATTEMPTS {
                    Progress::Aborted(PoiError::OracleUnavailable)
                } else {
                    state.failures = state.failures + 1;
                    Progress::Pending(state)
                }
            },
        }
    }
}

/// Whether every signature that the oracle hands out verifies under the key
/// of the node that was asked, for the challenge that was sent.
pub open spec fn answers_verify<S: SignatureScheme, F: Fn(usize, Vec<u8>) -> Option<u64>>(
    scheme: S,
    keys: Seq<Seq<char>>,
    oracle: F,
) -> bool {
    forall|peer: usize, sent: Vec<u8>, signature: u64| #[trigger]
        oracle.ensures((peer, sent), Some(signature)) ==> scheme.accepts(
            keys[peer as int],
            signature,
            sent@,
        )
}

/// Whether the two signatures of hop `hop` are what generation puts there:
/// the oracle's answer when the hop's peer is asked to sign the hop's
/// challenge, and a counter-signature of that answer that verifies under the
/// proposer's key.
pub open spec fn hop_as_generated<S: SignatureScheme, F: Fn(usize, Vec<u8>) -> Option<u64>>(
    scheme: S,
    oracle: F,
    keys: Seq<Seq<char>>,
    claim: Claim,
    proof: Seq<u64>,
    hop: int,
) -> bool {
    let h = walk_hash(proof, claim.message, hop);
    let peer = hop_peer(selected(proof[0], keys), h);
    &&& exists|sent: Vec<u8>|
        sent@ == challenge(h, claim.dependency, claim.message) && #[trigger] oracle.ensures(
            (peer, sent),
            Some(proof[2 * hop + 1]),
        )
    &&& scheme.accepts(claim.signer_key, proof[2 * hop + 2], counter_input(proof[2 * hop + 1]))
}

/// Whether the hops before `end` are all as generation makes them.
pub open spec fn generated_up_to<S: SignatureScheme, F: Fn(usize, Vec<u8>) -> Option<u64>>(
    scheme: S,
    oracle: F,
    keys: Seq<Seq<char>>,
    claim: Claim,
    proof: Seq<u64>,
    end: int,
) -> bool {
    forall|hop: int| 0 <= hop < end ==> #[trigger] hop_as_generated(scheme, oracle, keys, claim, proof, hop)
}

/// Whether the oracle always hands out a signature.
pub open spec fn always_answers<F: Fn(usize, Vec<u8>) -> Option<u64>>(oracle: F) -> bool {
    forall|peer: usize, sent: Vec<u8>| !#[trigger] oracle.ensures((peer, sent), None)
}

/// A hop whose two signatures verify extends a proof whose elements are all
/// valid to a longer one whose elements are all valid.
pub proof fn lemma_valid_hop<S: SignatureScheme>(
    scheme: S,
    keys: Seq<Seq<char>>,
    claim: Claim,
    before: Seq<u64>,
    grown: Seq<u64>,
)
    requires
        before.len() % 2 == 1,
        grown.len() == before.len() + 2,
        grown.take(before.len() as int) == before,
        valid_up_to(scheme, keys, claim, before, before.len() as int),
        scheme.accepts(
            keys[hop_peer(
                selected(before[0], keys),
                walk_hash(before, claim.message, hops_done(before)),
            ) as int],
            grown[before.len() as int],
            challenge(
                walk_hash(before, claim.message, hops_done(before)),
                claim.dependency,
                claim.message,
            ),
        ),
        scheme.accepts(
            claim.signer_key,
            grown[before.len() as int + 1],
            counter_input(grown[before.len() as int]),
        ),
    ensures
        valid_up_to(scheme, keys, claim, grown, grown.len() as int),
{
    assert forall|i: int| 0 <= i < grown.len() implies #[trigger] element_valid(
        scheme,
        keys,
        claim,
        grown,
        i,
    ) by {
        assert forall|j: int| 0 <= j < before.len() implies grown[j] == before[j] by {
            assert(grown.take(before.len() as int)[j] == grown[j]);
        }
        if i < before.len() {
            assert(element_valid(scheme, keys, claim, before, i));
            if i > 0 && i % 2 == 1 {
                assert(walk_hash(grown, claim.message, (i - 1) / 2) == walk_hash(
                    before,
                    claim.message,
                    (i - 1) / 2,
                ));
            }
        } else if i == before.len() {
            assert(walk_hash(grown, claim.message, (i - 1) / 2) == walk_hash(
                before,
                claim.message,
                hops_done(before),
            ));
        }
    }
}

/// A hop that the oracle answered and the proposer counter-signed extends a
/// proof whose hops are all as generated to a longer one of which the same
/// holds.
pub proof fn lemma_generated_hop<S: SignatureScheme, F: Fn(usize, Vec<u8>) -> Option<u64>>(
    scheme: S,
    oracle: F,
    keys: Seq<Seq<char>>,
    claim: Claim,
    before: Seq<u64>,
    grown: Seq<u64>,
    peer: usize,
    sent: Vec<u8>,
)
    requires
        before.len() % 2 == 1,
        grown.len() == before.len() + 2,
        grown.take(before.len() as int) == before,
        generated_up_to(scheme, oracle, keys, claim, before, hops_done(before)),
        peer == hop_peer(
            selected(before[0], keys),
            walk_hash(before, claim.message, hops_done(before)),
        ),
        sent@ == challenge(
            walk_hash(before, claim.message, hops_done(before)),
            claim.dependency,
            claim.message,
        ),
        oracle.ensures((peer, sent), Some(grown[before.len() as int])),
        scheme.accepts(
            claim.signer_key,
            grown[before.len() as int + 1],
            counter_input(grown[before.len() as int]),
        ),
    ensures
        generated_up_to(scheme, oracle, keys, claim, grown, hops_done(grown)),
{
    assert forall|hop: int| 0 <= hop < hops_done(grown) implies #[trigger] hop_as_generated(
        scheme,
        oracle,
        keys,
        claim,
        grown,
        hop,
    ) by {
        assert forall|j: int| 0 <= j < before.len() implies grown[j] == before[j] by {
            assert(grown.take(before.len() as int)[j] == grown[j]);
        }
        assert(walk_hash(grown, claim.message, hop) == walk_hash(before, claim.message, hop));
        if hop < hops_done(before) {
            assert(hop_as_generated(scheme, oracle, keys, claim, before, hop));
        }
    }
}

/// Generates a proof, asking `oracle` for each hop's signature: it is given
/// the position of the peer in the node set and the challenge, and answers
/// with the peer's signature or with `None` where none could be had. `s0` is
/// the proposer's signature of `dependency`.
///
/// Whatever the oracle does, a proof that comes back starts with `s0` and
/// holds, for each hop of the tour, the oracle's answer and the proposer's
/// counter-signature of it. Where `s0` and the oracle's signatures verify, it
/// is a valid proof.
pub fn generate_poi<S: SignatureScheme, F: Fn(usize, Vec<u8>) -> Option<u64>>(
    scheme: &S,
    private_key: &str,
    s0: u64,
    dependency: u64,
    message_root: u64,
    sample: u64,
    network_nodes: &Vec<Node>,
    oracle: &F,
) -> (r: Result<Vec<u64>, PoiError>)
    requires
        forall|peer: usize, sent: Vec<u8>| #[trigger] oracle.requires((peer, sent)),
    ensures
        match r {
            Ok(proof) => {
                &&& committee_seated(keys_of(network_nodes@), s0)
                &&& proof@.len() == 2 * tour_length_of(sample, network_nodes@.len()) + 1
                &&& proof@[0] == s0
                &&& generated_up_to(
                    *scheme,
                    *oracle,
                    keys_of(network_nodes@),
                    (Claim {
                        signer_key: scheme.public_key_of(private_key@),
                        dependency,
                        message: message_root,
                        sample,
                    }),
                    proof@,
                    tour_length_of(sample, network_nodes@.len()) as int,
                )
                &&& scheme.accepts(
                    scheme.public_key_of(private_key@),
                    s0,
                    seed_input(dependency),
                ) && answers_verify(*scheme, keys_of(network_nodes@), *oracle) ==> proof_valid(
                    *scheme,
                    keys_of(network_nodes@),
                    (Claim {
                        signer_key: scheme.public_key_of(private_key@),
                        dependency,
                        message: message_root,
                        sample,
                    }),
                    proof@,
                )
            },
            Err(e) => if network_nodes@.len() < 2 {
                e == PoiError::DegenerateNetwork
            } else if !committee_seated(keys_of(network_nodes@), s0) {
                e == PoiError::DrawsExhausted
            } else {
                e == PoiError::OracleUnavailable && !always_answers(*oracle)
            },
        },
{
    let ghost keys = keys_of(network_nodes@);
    let ghost claim = Claim {
        signer_key: scheme.public_key_of(private_key@),
        dependency,
        message: message_root,
        sample,
    };
    let ghost honest = scheme.accepts(claim.signer_key, s0, seed_input(dependency))
        && answers_verify(*scheme, keys, *oracle);
    let mut state = match Generation::begin(s0, dependency, message_root, sample, network_nodes) {
        Ok(generation) => generation,
        Err(e) => {
            return Err(e);
        },
    };
    assert(honest ==> element_valid(*scheme, keys, claim, state@.proof, 0));
    loop
        invariant
            state.wf(),
            keys == keys_of(network_nodes@),
            claim == (Claim {
                signer_key: scheme.public_key_of(private_key@),
                dependency,
                message: message_root,
                sample,
            }),
            honest == (scheme.accepts(claim.signer_key, s0, seed_input(dependency))
                && answers_verify(*scheme, keys, *oracle)),
            committee_seated(keys, s0),
            state@.proof.len() >= 1,
            state@.proof[0] == s0,
            state@.committee == selected(s0, keys),
            state@.length == tour_length_of(sample, network_nodes@.len()),
            state@.dependency == dependency,
            state@.message == message_root,
            honest ==> valid_up_to(*scheme, keys, claim, state@.proof, state@.proof.len() as int),
            generated_up_to(*scheme, *oracle, keys, claim, state@.proof, hops_done(state@.proof)),
            forall|peer: usize, sent: Vec<u8>| #[trigger] oracle.requires((peer, sent)),
        decreases 2 * state@.length + 1 - state@.proof.len(), MAX_ATTEMPTS - state@.failures,
    {
        let ghost before = state@.proof;
        let (peer, sent) = state.request();
        let ghost asked = sent;
        let answer = oracle(peer, sent);
        let event = match answer {
            Some(signature) => Event::Signed(signature),
            None => Event::Failed,
        };
        match state.advance(scheme, private_key, event) {
            Progress::Pending(generation) => {
                proof {
                    if answer.is_some() {
                        if honest {
                            lemma_valid_hop(*scheme, keys, claim, before, generation@.proof);
                        }
                        lemma_generated_hop(
                            *scheme,
                            *oracle,
                            keys,
                            claim,
                            before,
                            generation@.proof,
                            peer,
                            asked,
                        );
                    }
                }
                state = generation;
            },
            Progress::Complete(proof) => {
                proof {
                    if honest {
                        lemma_valid_hop(*scheme, keys, claim, before, proof@);
                    }
                    lemma_generated_hop(*scheme, *oracle, keys, claim, before, proof@, peer, asked);
                    assert(proof@.take(before.len() as int)[0] == proof@[0]);
                }
                return Ok(proof);
            },
            Progress::Aborted(e) => {
                return Err(e);
            },
        }
    }
}

} // verus!
