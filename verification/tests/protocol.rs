use poi::committee::select;
use poi::committee::select_from_draws;
use poi::error::PoiError;
use poi::generator::generate_poi;
use poi::node::Node;
use poi::rng::initialize_rng;
use poi::signature::sign_word;
use poi::signature::KeyedHash;
use poi::tour::round_sample;
use poi::tour::tour_length;
use poi::validator::check_poi;
use poi::validator::verify_poi;
use rand::rngs::StdRng;
use rand::RngCore;
use rand::SeedableRng;
use rand_distr::Distribution;
use rand_distr::Normal;

fn network(size: usize) -> Vec<Node> {
    (1..=size)
        .map(|i| Node::new(format!("node{}", i), format!("http://10.0.0.{}:9933/", i), format!("k{}", i)))
        .collect()
}

fn sample(seed: u64, difficulty: f64, network_size: usize) -> u64 {
    let normal = Normal::new(difficulty, 0.1 * network_size as f64).unwrap();
    let mut rng = StdRng::seed_from_u64(seed);
    let drawn: f64 = normal.sample(&mut rng);
    round_sample(drawn.to_bits())
}

fn honest_proof(nodes: &Vec<Node>) -> (Vec<u64>, u64) {
    let s0 = sign_word(&KeyedHash, "k1", 54321);
    let drawn = sample(s0, 20.0, nodes.len());
    let oracle = |peer: usize, sent: Vec<u8>| Some(KeyedHash::tag(nodes[peer].get_public_key(), &sent));
    let proof = generate_poi(&KeyedHash, "k1", s0, 54321, 999, drawn, nodes, &oracle).unwrap();
    (proof, drawn)
}

#[test]
fn rng_follows_the_seeded_stream() {
    let mut ours = initialize_rng(1234560);
    let mut theirs = StdRng::seed_from_u64(1234560);
    for _ in 0..100 {
        assert_eq!(ours.next_u64(), theirs.next_u64());
    }
}

#[test]
fn rng_output_is_not_the_seed() {
    let mut rng = initialize_rng(7);
    let first = rng.next_u64();
    let second = rng.next_u64();
    assert_ne!(first, 7);
    assert_ne!(first, second);
}

#[test]
fn equal_seeds_give_equal_streams() {
    let mut a = initialize_rng(42);
    let mut b = initialize_rng(42);
    let mut c = initialize_rng(43);
    let wa: Vec<u64> = (0..16).map(|_| a.next_u64()).collect();
    let wb: Vec<u64> = (0..16).map(|_| b.next_u64()).collect();
    let wc: Vec<u64> = (0..16).map(|_| c.next_u64()).collect();
    assert_eq!(wa, wb);
    assert_ne!(wa, wc);
}

#[test]
fn select_ten_nodes_gives_five_distinct_members() {
    let nodes = network(10);
    let committee = select(1234560, &nodes).unwrap();
    assert_eq!(committee.len(), 5);
    for a in 0..committee.len() {
        assert!(committee[a] < 10);
        for b in 0..a {
            assert_ne!(nodes[committee[a]].get_public_key(), nodes[committee[b]].get_public_key());
        }
    }
    assert_eq!(committee, vec![4, 2, 8, 1, 9]);
}

#[test]
fn stream_of_a_seed_has_fixed_words() {
    let mut rng = initialize_rng(1234560);
    let words: Vec<u64> = (0..4).map(|_| rng.next_u64()).collect();
    assert_eq!(
        words,
        vec![7864793480648303544, 4594899473036402384, 3457917082936451742, 8662000270561310048]
    );
}

#[test]
fn tour_length_of_the_sampled_value() {
    let drawn: f64 = Normal::new(20.0, 0.1 * 10.0).unwrap().sample(&mut StdRng::seed_from_u64(1234560));
    assert_eq!(drawn.to_bits(), 0x4033d4768023ad78);
    assert_eq!(round_sample(drawn.to_bits()), 20);
    assert_eq!(tour_length(10, round_sample(drawn.to_bits())), 20);
}

#[test]
fn seed_signature_and_its_committee() {
    let nodes = network(10);
    let s0 = sign_word(&KeyedHash, "k1", 54321);
    assert_eq!(s0, 3212133860528949043);
    assert_eq!(select(s0, &nodes), Ok(vec![6, 0, 5, 2, 7]));
    let (proof, drawn) = honest_proof(&nodes);
    assert_eq!(drawn, 19);
    assert_eq!(proof.len(), 39);
    assert_eq!(proof[0], s0);
}

#[test]
fn select_is_deterministic() {
    let nodes = network(10);
    assert_eq!(select(1234560, &nodes), select(1234560, &nodes));
    assert_eq!(select(99, &network(50)), select(99, &network(50)));
}

#[test]
fn select_agrees_with_the_draws_of_the_stream() {
    let nodes = network(10);
    let mut rng = StdRng::seed_from_u64(1234560);
    let words: Vec<u64> = (0..200).map(|_| rng.next_u64()).collect();
    assert_eq!(select(1234560, &nodes), select_from_draws(&nodes, &words));
}

#[test]
fn select_rejects_small_networks() {
    assert_eq!(select(1, &network(0)), Err(PoiError::DegenerateNetwork));
    assert_eq!(select(1, &network(1)), Err(PoiError::DegenerateNetwork));
    assert_eq!(select(1, &network(2)).unwrap().len(), 1);
    assert_eq!(select(1, &network(3)).unwrap().len(), 1);
}

#[test]
fn committee_is_capped_at_twenty() {
    assert_eq!(select(5, &network(39)).unwrap().len(), 19);
    assert_eq!(select(5, &network(40)).unwrap().len(), 20);
    assert_eq!(select(5, &network(100)).unwrap().len(), 20);
}

#[test]
fn generated_proof_verifies() {
    let nodes = network(10);
    let (proof, drawn) = honest_proof(&nodes);
    assert!(check_poi(&KeyedHash, &proof, "k1", 54321, 999, drawn, &nodes));
    assert_eq!(verify_poi(&KeyedHash, &proof, "k1", 54321, 999, drawn, &nodes), Ok(()));
}

#[test]
fn flipped_bit_is_rejected() {
    let nodes = network(10);
    let (mut proof, drawn) = honest_proof(&nodes);
    proof[3] ^= 1;
    assert!(!check_poi(&KeyedHash, &proof, "k1", 54321, 999, drawn, &nodes));
    assert_eq!(
        verify_poi(&KeyedHash, &proof, "k1", 54321, 999, drawn, &nodes),
        Err(PoiError::InvalidSignature { index: 3 })
    );
}

#[test]
fn truncated_proof_is_rejected() {
    let nodes = network(10);
    let (mut proof, drawn) = honest_proof(&nodes);
    proof.pop();
    assert_eq!(
        verify_poi(&KeyedHash, &proof, "k1", 54321, 999, drawn, &nodes),
        Err(PoiError::InvalidProofStructure)
    );
    assert!(!check_poi(&KeyedHash, &proof, "k1", 54321, 999, drawn, &nodes));
}

#[test]
fn random_signatures_are_rejected_at_the_first_hop() {
    let nodes = network(10);
    let (honest, drawn) = honest_proof(&nodes);
    let mut rng = StdRng::seed_from_u64(5);
    let mut proof: Vec<u64> = vec![honest[0]];
    while proof.len() < honest.len() {
        proof.push(rng.next_u64());
    }
    assert_eq!(
        verify_poi(&KeyedHash, &proof, "k1", 54321, 999, drawn, &nodes),
        Err(PoiError::InvalidSignature { index: 1 })
    );
}

#[test]
fn neighbouring_seeds_select_other_committees() {
    let nodes = network(10);
    let base = select(1234560, &nodes).unwrap();
    for bit in 0..64 {
        assert_ne!(select(1234560 ^ (1u64 << bit), &nodes).unwrap(), base, "bit {}", bit);
    }
}
