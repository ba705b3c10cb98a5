//! Verification of a proof: the validator replays the walk from the proof's
//! own elements and checks every signature, with no contact to anyone.

use crate::committee::committee_size;
use crate::committee::select;
use crate::committee::selected;
use crate::committee::lemma_selected_well_seated;
use crate::committee::well_seated;
use crate::encoding::decode;
use crate::encoding::encode_one;
use crate::encoding::encode_three;
use crate::encoding::encode_two;
use crate::encoding::encoded;
use crate::encoding::fields_of;
use crate::encoding::is_encoding;
use crate::error::PoiError;
use crate::hash::hash;
use crate::hash::hashed;
use crate::node::keys_of;
use crate::node::Node;
use crate::signature::SignatureScheme;
use crate::tour::tour_length;
use crate::tour::tour_length_of;
use vstd::prelude::*;

verus! {

/// What a proof is checked against: who proposes, on which block the new one
/// builds, which block is proposed, and the sampled tour length.
pub struct Claim {
    pub signer_key: Seq<char>,
    pub dependency: u64,
    pub message: u64,
    pub sample: u64,
}

/// The bytes the proposer signs to obtain the seed.
pub open spec fn seed_input(dependency: u64) -> Seq<u8> {
    encoded(seq![dependency])
}

/// The bytes a committee member signs at a hop whose rolling hash is `h`.
pub open spec fn challenge(h: u64, dependency: u64, message: u64) -> Seq<u8> {
    encoded(seq![h, dependency, message])
}

/// The bytes the proposer signs to counter-sign `signature`.
pub open spec fn counter_input(signature: u64) -> Seq<u8> {
    encoded(seq![signature])
}

/// The rolling hash at the start of hop `hop`: of the seed and the message
/// for the first hop, of the previous counter-signature afterwards.
pub open spec fn walk_hash(proof: Seq<u64>, message: u64, hop: int) -> u64 {
    if hop == 0 {
        hashed(encoded(seq![proof[0], message]))
    } else {
        hashed(counter_input(proof[2 * hop]))
    }
}

/// The committee member that a rolling hash points at.
pub open spec fn hop_peer(committee: Seq<usize>, h: u64) -> usize {
    committee[(h as nat % committee.len()) as int]
}

/// Whether the element at `index` of the proof is the signature it has to be:
/// the seed a signature of the dependency by the proposer, an odd element a
/// signature of the hop's challenge by the hop's peer, an even element the
/// proposer's signature of the element before it.
pub open spec fn element_valid<S: SignatureScheme>(
    scheme: S,
    keys: Seq<Seq<char>>,
    claim: Claim,
    proof: Seq<u64>,
    index: int,
) -> bool {
    if index == 0 {
        scheme.accepts(claim.signer_key, proof[0], seed_input(claim.dependency))
    } else if index % 2 == 1 {
        let h = walk_hash(proof, claim.message, (index - 1) / 2);
        let peer = hop_peer(selected(proof[0], keys), h);
        scheme.accepts(keys[peer as int], proof[index], challenge(h, claim.dependency, claim.message))
    } else {
        scheme.accepts(claim.signer_key, proof[index], counter_input(proof[index - 1]))
    }
}

/// Whether the elements before `end` are all valid.
pub open spec fn valid_up_to<S: SignatureScheme>(
    scheme: S,
    keys: Seq<Seq<char>>,
    claim: Claim,
    proof: Seq<u64>,
    end: int,
) -> bool {
    forall|i: int| 0 <= i < end ==> #[trigger] element_valid(scheme, keys, claim, proof, i)
}

/// Whether the seed selects a full committee from the network.
pub open spec fn committee_seated(keys: Seq<Seq<char>>, seed: u64) -> bool {
    keys.len() >= 2 && selected(seed, keys).len() == committee_size(keys.len())
}

/// Whether `proof` is a valid proof of the claim: it has one seed and two
/// signatures for each hop of the tour, its seed seats a committee, and every
/// element is valid.
pub open spec fn proof_valid<S: SignatureScheme>(
    scheme: S,
    keys: Seq<Seq<char>>,
    claim: Claim,
    proof: Seq<u64>,
) -> bool {
    &&& proof.len() == 2 * tour_length_of(claim.sample, keys.len()) + 1
    &&& committee_seated(keys, proof[0])
    &&& valid_up_to(scheme, keys, claim, proof, proof.len() as int)
}

/// Whether `error` is the reason for which `proof` is rejected. The checks
/// come in this order: the parity of the length, the seed, the committee, the
/// exact length, then the hops in order; the first that fails decides.
pub open spec fn rejected_with<S: SignatureScheme>(
    scheme: S,
    keys: Seq<Seq<char>>,
    claim: Claim,
    proof: Seq<u64>,
    error: PoiError,
) -> bool {
    let odd = proof.len() % 2 == 1;
    let seed_ok = element_valid(scheme, keys, claim, proof, 0);
    let exact = proof.len() == 2 * tour_length_of(claim.sample, keys.len()) + 1;
    match error {
        PoiError::InvalidProofStructure => !odd || (seed_ok && committee_seated(keys, proof[0])
            && !exact),
        PoiError::InvalidSignature { index } => {
            &&& odd
            &&& index < proof.len()
            &&& !element_valid(scheme, keys, claim, proof, index as int)
            &&& valid_up_to(scheme, keys, claim, proof, index as int)
            &&& index > 0 ==> committee_seated(keys, proof[0]) && exact
        },
        PoiError::DegenerateNetwork => odd && seed_ok && keys.len() < 2,
        PoiError::DrawsExhausted => odd && seed_ok && keys.len() >= 2 && !committee_seated(
            keys,
            proof[0],
        ),
        _ => false,
    }
}

/// Checks a proof and says why it is rejected. It returns `Ok` exactly on
/// the valid proofs of the claim.
pub fn verify_poi<S: SignatureScheme>(
    scheme: &S,
    proof: &Vec<u64>,
    signer_key: &str,
    dependency: u64,
    message_root: u64,
    sample: u64,
    network_nodes: &Vec<Node>,
) -> (r: Result<(), PoiError>)
    ensures
        match r {
            Ok(()) => proof_valid(
                *scheme,
                keys_of(network_nodes@),
                (Claim { signer_key: signer_key@, dependency, message: message_root, sample }),
                proof@,
            ),
            Err(e) => {
                &&& !proof_valid(
                    *scheme,
                    keys_of(network_nodes@),
                    (Claim { signer_key: signer_key@, dependency, message: message_root, sample }),
                    proof@,
                )
                &&& rejected_with(
                    *scheme,
                    keys_of(network_nodes@),
                    (Claim { signer_key: signer_key@, dependency, message: message_root, sample }),
                    proof@,
                    e,
                )
            },
        },
{
    let ghost keys = keys_of(network_nodes@);
    let ghost claim = Claim { signer_key: signer_key@, dependency, message: message_root, sample };
    if proof.len() % 2 == 0 {
        return Err(PoiError::InvalidProofStructure);
    }
    let seed_message = encode_one(dependency);
    if !scheme.verify(signer_key, proof[0], seed_message.as_slice()) {
        assert(!element_valid(*scheme, keys, claim, proof@, 0));
        return Err(PoiError::InvalidSignature { index: 0 });
    }
    assert(element_valid(*scheme, keys, claim, proof@, 0));
    let committee = match select(proof[0], network_nodes) {
        Ok(committee) => committee,
        Err(e) => {
            return Err(e);
        },
    };
    let length = tour_length(network_nodes.len() as u64, sample);
    if proof.len() as u128 != 2 * (length as u128) + 1 {
        return Err(PoiError::InvalidProofStructure);
    }
    proof {
        lemma_selected_well_seated(proof@[0], keys);
    }
    let hops: usize = (proof.len() - 1) / 2;
    let mut current_hash: u64 = hash(encode_two(proof[0], message_root).as_slice());
    let mut hop: usize = 0;
    while hop < hops
        invariant
            hop <= hops,
            proof@.len() == 2 * hops + 1,
            proof@.len() <= usize::MAX,
            proof@.len() == 2 * tour_length_of(sample, keys.len()) + 1,
            committee_seated(keys, proof@[0]),
            keys == keys_of(network_nodes@),
            claim == (Claim { signer_key: signer_key@, dependency, message: message_root, sample }),
            committee@ == selected(proof@[0], keys),
            committee@.len() > 0,
            well_seated(keys, committee@),
            current_hash == walk_hash(proof@, message_root, hop as int),
            valid_up_to(*scheme, keys, claim, proof@, 2 * hop + 1),
        decreases hops - hop,
    {
        let next_hop: usize = (current_hash % (committee.len() as u64)) as usize;
        let peer: usize = committee[next_hop];
        assert(peer == hop_peer(committee@, current_hash));
        let to_check = encode_three(current_hash, dependency, message_root);
        if !scheme.verify(
            network_nodes[peer].get_public_key(),
            proof[2 * hop + 1],
            to_check.as_slice(),
        ) {
            assert(!element_valid(*scheme, keys, claim, proof@, 2 * hop + 1));
            return Err(PoiError::InvalidSignature { index: 2 * hop + 1 });
        }
        assert(element_valid(*scheme, keys, claim, proof@, 2 * hop + 1));
        let signed = encode_one(proof[2 * hop + 1]);
        if !scheme.verify(signer_key, proof[2 * hop + 2], signed.as_slice()) {
            assert(!element_valid(*scheme, keys, claim, proof@, 2 * hop + 2));
            return Err(PoiError::InvalidSignature { index: 2 * hop + 2 });
        }
        assert(element_valid(*scheme, keys, claim, proof@, 2 * hop + 2));
        current_hash = hash(encode_one(proof[2 * hop + 2]).as_slice());
        hop += 1;
    }
    Ok(())
}

/// Checks a proof as it arrives on the wire, a count followed by the
/// signatures. Bytes that do not have that layout are rejected with
/// `DecodingError`; the proof that the others hold is checked as `verify_poi`
/// checks it.
pub fn verify_wire_poi<S: SignatureScheme>(
    scheme: &S,
    wire: &[u8],
    signer_key: &str,
    dependency: u64,
    message_root: u64,
    sample: u64,
    network_nodes: &Vec<Node>,
) -> (r: Result<(), PoiError>)
    ensures
        match r {
            Ok(()) => is_encoding(wire@) && proof_valid(
                *scheme,
                keys_of(network_nodes@),
                (Claim { signer_key: signer_key@, dependency, message: message_root, sample }),
                fields_of(wire@),
            ),
            Err(e) => if is_encoding(wire@) {
                &&& !proof_valid(
                    *scheme,
                    keys_of(network_nodes@),
                    (Claim { signer_key: signer_key@, dependency, message: message_root, sample }),
                    fields_of(wire@),
                )
                &&& rejected_with(
                    *scheme,
                    keys_of(network_nodes@),
                    (Claim { signer_key: signer_key@, dependency, message: message_root, sample }),
                    fields_of(wire@),
                    e,
                )
            } else {
                e == PoiError::DecodingError
            },
        },
{
    match decode(wire) {
        Ok(proof) => verify_poi(
            scheme,
            &proof,
            signer_key,
            dependency,
            message_root,
            sample,
            network_nodes,
        ),
        Err(e) => Err(e),
    }
}

/// Checks a proof: `true` exactly on the valid proofs of the claim.
pub fn check_poi<S: SignatureScheme>(
    scheme: &S,
    proof: &Vec<u64>,
    signer_key: &str,
    dependency: u64,
    message_root: u64,
    sample: u64,
    network_nodes: &Vec<Node>,
) -> (ok: bool)
    ensures
        ok == proof_valid(
            *scheme,
            keys_of(network_nodes@),
            (Claim { signer_key: signer_key@, dependency, message: message_root, sample }),
            proof@,
        ),
{
    verify_poi(scheme, proof, signer_key, dependency, message_root, sample, network_nodes).is_ok()
}

} // verus!
