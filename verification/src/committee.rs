//! Committee selection: from a seed and the node set, the ordered committee
//! whose members will be asked to sign.

use crate::error::PoiError;
use crate::node::keys_of;
use crate::node::Node;
use crate::rng::initialize_rng;
use crate::rng::seeded_word;
use vstd::prelude::*;
use vstd::seq_lib::seq_to_set_is_finite;
use vstd::set_lib::lemma_int_range;
use vstd::set_lib::lemma_len_difference;
use vstd::set_lib::lemma_len_subset;
use vstd::set_lib::lemma_len_union;
use vstd::set_lib::set_int_range;

verus! {

/// No committee has more members than this.
pub const MAX_COMMITTEE: usize = 20;

/// Selection gives up after this many draws.
pub const MAX_DRAWS: u64 = 65_536;

/// The number of committee members for a network of `network_size` nodes:
/// half the network, and at most `MAX_COMMITTEE`.
pub open spec fn committee_size(network_size: nat) -> nat {
    if network_size / 2 < MAX_COMMITTEE as nat {
        network_size / 2
    } else {
        MAX_COMMITTEE as nat
    }
}

/// The node that a drawn word points at.
pub open spec fn drawn_index(word: u64, network_size: nat) -> usize {
    (word as nat % network_size) as usize
}

/// Whether the committee already has a member with the key of node `i`.
pub open spec fn key_taken(keys: Seq<Seq<char>>, picked: Seq<usize>, i: int) -> bool {
    exists|j: int| 0 <= j < picked.len() && keys[#[trigger] picked[j] as int] == keys[i]
}

/// The committee after one more draw: the drawn node joins at the end unless
/// its key is already seated.
pub open spec fn after_draw(keys: Seq<Seq<char>>, picked: Seq<usize>, word: u64) -> Seq<usize> {
    let i = drawn_index(word, keys.len());
    if key_taken(keys, picked, i as int) {
        picked
    } else {
        picked.push(i)
    }
}

/// The committee after the draws `words`, taken in order, where drawing stops
/// once `target` members are seated.
pub open spec fn after_draws(keys: Seq<Seq<char>>, target: nat, words: Seq<u64>) -> Seq<usize>
    decreases words.len(),
{
    if words.len() == 0 {
        Seq::empty()
    } else {
        let before = after_draws(keys, target, words.drop_last());
        if before.len() >= target {
            before
        } else {
            after_draw(keys, before, words.last())
        }
    }
}

/// The first `count` words of the stream of `seed`.
pub open spec fn stream_prefix(seed: u64, count: nat) -> Seq<u64> {
    Seq::new(count, |i: int| seeded_word(seed, i as nat))
}

/// The committee that `seed` selects from a network with the given keys, as
/// far as `MAX_DRAWS` draws seat it.
pub open spec fn selected(seed: u64, keys: Seq<Seq<char>>) -> Seq<usize> {
    after_draws(keys, committee_size(keys.len()), stream_prefix(seed, MAX_DRAWS as nat))
}

/// Every member is a node of the network, and no two members share a key.
pub open spec fn well_seated(keys: Seq<Seq<char>>, picked: Seq<usize>) -> bool {
    &&& forall|j: int| 0 <= j < picked.len() ==> #[trigger] picked[j] < keys.len()
    &&& forall|a: int, b: int|
        0 <= a < b < picked.len() ==> keys[#[trigger] picked[a] as int] != keys[#[trigger] picked[b] as int]
}

/// One draw keeps a committee well seated and adds at most one member.
pub proof fn lemma_after_draw(keys: Seq<Seq<char>>, picked: Seq<usize>, word: u64)
    requires
        keys.len() > 0,
        keys.len() <= usize::MAX,
        well_seated(keys, picked),
    ensures
        well_seated(keys, after_draw(keys, picked, word)),
        picked.len() <= after_draw(keys, picked, word).len() <= picked.len() + 1,
{
    let i = drawn_index(word, keys.len());
    let next = after_draw(keys, picked, word);
    assert(word as nat % keys.len() < keys.len()) by (nonlinear_arith)
        requires
            keys.len() > 0,
    ;
    if !key_taken(keys, picked, i as int) {
        assert forall|a: int, b: int| 0 <= a < b < next.len() implies keys[#[trigger] next[a] as int]
            != keys[#[trigger] next[b] as int] by {
            if b == picked.len() {
                assert(next[a] == picked[a]);
            } else {
                assert(next[a] == picked[a] && next[b] == picked[b]);
            }
        }
    }
}

/// Whatever the draws, the committee is well seated and never larger than
/// the target.
pub proof fn lemma_after_draws(keys: Seq<Seq<char>>, target: nat, words: Seq<u64>)
    requires
        keys.len() > 0,
        keys.len() <= usize::MAX,
    ensures
        well_seated(keys, after_draws(keys, target, words)),
        after_draws(keys, target, words).len() <= target,
        after_draws(keys, target, words).len() <= words.len(),
    decreases words.len(),
{
    if words.len() > 0 {
        lemma_after_draws(keys, target, words.drop_last());
        let before = after_draws(keys, target, words.drop_last());
        if before.len() < target {
            lemma_after_draw(keys, before, words.last());
        }
    }
}

/// Once the committee is full, further draws leave it as it is.
pub proof fn lemma_full_stays(keys: Seq<Seq<char>>, target: nat, words: Seq<u64>, used: int)
    requires
        0 <= used <= words.len(),
        after_draws(keys, target, words.take(used)).len() >= target,
    ensures
        after_draws(keys, target, words) == after_draws(keys, target, words.take(used)),
    decreases words.len(),
{
    if used < words.len() {
        let shorter = words.drop_last();
        assert(shorter.take(used) =~= words.take(used));
        lemma_full_stays(keys, target, shorter, used);
    } else {
        assert(words.take(used) =~= words);
    }
}

/// The nodes whose key is not yet seated.
pub open spec fn free_nodes(keys: Seq<Seq<char>>, picked: Seq<usize>) -> Set<int> {
    Set::new(|i: int| 0 <= i < keys.len() && !key_taken(keys, picked, i))
}

/// Why selection comes to an end where all keys differ: a committee seats
/// as many keys as it has members, so while it is not full, more than half
/// of the nodes are free, and a draw finds one of them at least every other
/// time on average.
pub proof fn lemma_free_nodes(keys: Seq<Seq<char>>, picked: Seq<usize>)
    requires
        forall|a: int, b: int| 0 <= a < b < keys.len() ==> keys[a] != keys[b],
        well_seated(keys, picked),
        picked.len() < committee_size(keys.len()),
    ensures
        free_nodes(keys, picked).finite(),
        free_nodes(keys, picked).len() >= keys.len() - picked.len(),
        2 * free_nodes(keys, picked).len() > keys.len(),
{
    let all = set_int_range(0, keys.len() as int);
    let seats = picked.map_values(|member: usize| member as int);
    let seated = seats.to_set();
    let free = free_nodes(keys, picked);
    lemma_int_range(0, keys.len() as int);
    seq_to_set_is_finite(seats);
    seats.lemma_cardinality_of_set();
    let rest = all.difference(seated);
    assert forall|i: int| rest.contains(i) implies free.contains(i) by {
        if key_taken(keys, picked, i) {
            let j = choose|j: int| 0 <= j < picked.len() && keys[#[trigger] picked[j] as int] == keys[i];
            assert(picked[j] as int == i);
            assert(seats[j] == i);
            assert(seats.contains(i));
        }
    }
    assert(rest.subset_of(free));
    assert(free.subset_of(all));
    lemma_len_subset(free, all);
    lemma_len_subset(rest, free);
    lemma_len_difference(all, seated);
    lemma_len_union(rest, seated);
    assert(all.subset_of(rest.union(seated)));
    lemma_len_subset(all, rest.union(seated));
}

/// Takes one draw: seats the node that `word` points at unless its key is
/// already seated.
fn seat_drawn(nodes: &Vec<Node>, picked: &mut Vec<usize>, word: u64)
    requires
        nodes@.len() > 0,
        forall|j: int| 0 <= j < old(picked)@.len() ==> #[trigger] old(picked)@[j] < nodes@.len(),
    ensures
        final(picked)@ == after_draw(keys_of(nodes@), old(picked)@, word),
{
    let ghost keys = keys_of(nodes@);
    let i: usize = (word % (nodes.len() as u64)) as usize;
    assert(i == drawn_index(word, keys.len()));
    let mut y: usize = 0;
    let mut taken = false;
    while y < picked.len() && !taken
        invariant
            y <= picked@.len(),
            i < nodes@.len(),
            keys == keys_of(nodes@),
            forall|j: int| 0 <= j < picked@.len() ==> #[trigger] picked@[j] < nodes@.len(),
            taken ==> key_taken(keys, picked@, i as int),
            !taken ==> forall|j: int| 0 <= j < y ==> keys[#[trigger] picked@[j] as int] != keys[i as int],
        decreases picked@.len() - y + (if taken { 0int } else { 1int }),
    {
        if nodes[picked[y]].same_key(&nodes[i]) {
            assert(keys[picked@[y as int] as int] == keys[i as int]);
            taken = true;
        } else {
            y += 1;
        }
    }
    if !taken {
        picked.push(i);
    }
}

/// The committee size for a network of `network_size` nodes.
pub fn committee_target(network_size: usize) -> (target: usize)
    ensures
        target == committee_size(network_size as nat),
{
    if network_size / 2 < MAX_COMMITTEE {
        network_size / 2
    } else {
        MAX_COMMITTEE
    }
}

/// Selects the committee from draws that are given: the nodes they point at
/// join in the order drawn, a node whose key is already seated is passed
/// over, and drawing stops when the committee is full. It fails with
/// `DegenerateNetwork` on fewer than two nodes, and with `DrawsExhausted`
/// when the draws end before the committee is full.
pub fn select_from_draws(nodes: &Vec<Node>, words: &[u64]) -> (r: Result<Vec<usize>, PoiError>)
    ensures
        match r {
            Ok(picked) => {
                &&& nodes@.len() >= 2
                &&& picked@ == after_draws(keys_of(nodes@), committee_size(nodes@.len()), words@)
                &&& picked@.len() == committee_size(nodes@.len())
                &&& well_seated(keys_of(nodes@), picked@)
            },
            Err(e) => if nodes@.len() < 2 {
                e == PoiError::DegenerateNetwork
            } else {
                &&& e == PoiError::DrawsExhausted
                &&& after_draws(keys_of(nodes@), committee_size(nodes@.len()), words@).len()
                    < committee_size(nodes@.len())
            },
        },
{
    if nodes.len() < 2 {
        return Err(PoiError::DegenerateNetwork);
    }
    let ghost keys = keys_of(nodes@);
    let target = committee_target(nodes.len());
    let mut picked: Vec<usize> = Vec::new();
    let mut i: usize = 0;
    assert(words@.take(0) =~= Seq::<u64>::empty());
    while i < words.len() && picked.len() < target
        invariant
            i <= words@.len(),
            2 <= nodes@.len() <= usize::MAX,
            keys == keys_of(nodes@),
            target == committee_size(nodes@.len()),
            picked@ == after_draws(keys, target as nat, words@.take(i as int)),
            well_seated(keys, picked@),
        decreases words@.len() - i,
    {
        proof {
            assert(words@.take(i + 1).drop_last() =~= words@.take(i as int));
            lemma_after_draw(keys, picked@, words@[i as int]);
        }
        seat_drawn(nodes, &mut picked, words[i]);
        i += 1;
    }
    proof {
        lemma_after_draws(keys, target as nat, words@.take(i as int));
        if picked@.len() >= target {
            lemma_full_stays(keys, target as nat, words@, i as int);
        } else {
            assert(words@.take(i as int) =~= words@);
        }
    }
    if picked.len() == target {
        Ok(picked)
    } else {
        Err(PoiError::DrawsExhausted)
    }
}

/// Selects the committee for `seed`: the draws are the words of the random
/// source seeded with `seed`, at most `MAX_DRAWS` of them. The result is a
/// function of the seed and of the keys of the nodes, in their order.
pub fn select(seed: u64, nodes: &Vec<Node>) -> (r: Result<Vec<usize>, PoiError>)
    ensures
        match r {
            Ok(picked) => {
                &&& nodes@.len() >= 2
                &&& picked@ == selected(seed, keys_of(nodes@))
                &&& picked@.len() == committee_size(nodes@.len())
                &&& well_seated(keys_of(nodes@), picked@)
            },
            Err(e) => if nodes@.len() < 2 {
                e == PoiError::DegenerateNetwork
            } else {
                &&& e == PoiError::DrawsExhausted
                &&& selected(seed, keys_of(nodes@)).len() < committee_size(nodes@.len())
            },
        },
{
    if nodes.len() < 2 {
        return Err(PoiError::DegenerateNetwork);
    }
    let ghost keys = keys_of(nodes@);
    let target = committee_target(nodes.len());
    let mut rng = initialize_rng(seed);
    let mut picked: Vec<usize> = Vec::new();
    let mut drawn: u64 = 0;
    while drawn < MAX_DRAWS && picked.len() < target
        invariant
            drawn <= MAX_DRAWS,
            2 <= nodes@.len() <= usize::MAX,
            keys == keys_of(nodes@),
            target == committee_size(nodes@.len()),
            rng.wf(),
            rng.seed() == seed,
            rng.drawn() == drawn,
            picked@ == after_draws(keys, target as nat, stream_prefix(seed, drawn as nat)),
            well_seated(keys, picked@),
        decreases MAX_DRAWS - drawn,
    {
        let word = rng.next_u64();
        proof {
            let longer = stream_prefix(seed, (drawn + 1) as nat);
            assert(longer.drop_last() =~= stream_prefix(seed, drawn as nat));
            assert(longer.last() == word);
            lemma_after_draw(keys, picked@, word);
        }
        seat_drawn(nodes, &mut picked, word);
        drawn += 1;
    }
    proof {
        let all = stream_prefix(seed, MAX_DRAWS as nat);
        assert(all.take(drawn as int) =~= stream_prefix(seed, drawn as nat));
        lemma_after_draws(keys, target as nat, stream_prefix(seed, drawn as nat));
        if picked@.len() >= target {
            lemma_full_stays(keys, target as nat, all, drawn as int);
        }
    }
    if picked.len() == target {
        Ok(picked)
    } else {
        Err(PoiError::DrawsExhausted)
    }
}

/// The selected committee seats only nodes of the network, no key twice, and
/// never more members than the committee size.
pub proof fn lemma_selected_well_seated(seed: u64, keys: Seq<Seq<char>>)
    requires
        0 < keys.len() <= usize::MAX,
    ensures
        well_seated(keys, selected(seed, keys)),
        selected(seed, keys).len() <= committee_size(keys.len()),
{
    lemma_after_draws(keys, committee_size(keys.len()), stream_prefix(seed, MAX_DRAWS as nat));
}

} // verus!
