//! What holds of every valid proof.

use crate::committee::lemma_selected_well_seated;
use crate::committee::selected;
use crate::signature::unique_signatures;
use crate::signature::SignatureScheme;
use crate::tour::tour_length_of;
use crate::validator::challenge;
use crate::validator::element_valid;
use crate::validator::proof_valid;
use crate::validator::walk_hash;
use crate::validator::Claim;
use vstd::prelude::*;

verus! {

/// A valid proof holds one seed and two signatures for each hop of the tour,
/// and the tour has at least as many hops as the network has nodes.
pub proof fn lemma_valid_proof_structure<S: SignatureScheme>(
    scheme: S,
    keys: Seq<Seq<char>>,
    claim: Claim,
    proof: Seq<u64>,
)
    requires
        proof_valid(scheme, keys, claim, proof),
    ensures
        proof.len() == 2 * tour_length_of(claim.sample, keys.len()) + 1,
        proof.len() >= 2 * keys.len() + 1,
{
}

/// Tampering is detected: where a key accepts only one signature for a
/// message, a valid proof with any one element changed is not valid.
pub proof fn lemma_tampered_proof_rejected<S: SignatureScheme>(
    scheme: S,
    keys: Seq<Seq<char>>,
    claim: Claim,
    proof: Seq<u64>,
    index: int,
    value: u64,
)
    requires
        unique_signatures(scheme),
        proof_valid(scheme, keys, claim, proof),
        0 <= index < proof.len(),
        value != proof[index],
    ensures
        !proof_valid(scheme, keys, claim, proof.update(index, value)),
{
    let changed = proof.update(index, value);
    assert(element_valid(scheme, keys, claim, proof, index));
    if index > 0 && index % 2 == 1 {
        assert(walk_hash(changed, claim.message, (index - 1) / 2) == walk_hash(
            proof,
            claim.message,
            (index - 1) / 2,
        ));
    }
    assert(!element_valid(scheme, keys, claim, changed, index));
}

/// A valid proof is bound to its seed: the signature of every hop verifies
/// under the key of a member of the committee that the proof's first element
/// selects, the member that the walk reaches at that hop.
pub proof fn lemma_valid_proof_bound_to_seed<S: SignatureScheme>(
    scheme: S,
    keys: Seq<Seq<char>>,
    claim: Claim,
    proof: Seq<u64>,
    hop: int,
)
    requires
        keys.len() <= usize::MAX,
        proof_valid(scheme, keys, claim, proof),
        0 <= hop < tour_length_of(claim.sample, keys.len()),
    ensures
        ({
            let committee = selected(proof[0], keys);
            let h = walk_hash(proof, claim.message, hop);
            let seat = (h as nat % committee.len()) as int;
            &&& 0 <= seat < committee.len()
            &&& committee[seat] < keys.len()
            &&& scheme.accepts(
                keys[committee[seat] as int],
                proof[2 * hop + 1],
                challenge(h, claim.dependency, claim.message),
            )
        }),
{
    let committee = selected(proof[0], keys);
    let h = walk_hash(proof, claim.message, hop);
    lemma_selected_well_seated(proof[0], keys);
    assert(h as nat % committee.len() < committee.len()) by (nonlinear_arith)
        requires
            committee.len() > 0,
    ;
    assert(element_valid(scheme, keys, claim, proof, 2 * hop + 1));
}

} // verus!
