use poi::genesis::session_keys;
use poi::genesis::testnet_genesis;
use poi::genesis::AccountId;
use poi::genesis::AuthorityDiscoveryId;
use poi::genesis::SessionKeys;
use poi::genesis::ENDOWMENT;
use poi::pow::decode_seal;
use poi::pow::encode_seal;
use poi::pow::hash_meets_difficulty;
use poi::pow::next_nonce;
use poi::pow::verify_seal;
use poi::pow::Interact;
use poi::pow::MinimalSha3Algorithm;
use poi::pow::Seal;
use poi::pow::Sha3Algorithm;
use poi::pow::Uint256;
use primitive_types::U256;
use sha3::Digest;
use std::sync::Arc;

fn hash_of(value: U256) -> [u8; 32] {
    let mut bytes = [0u8; 32];
    value.to_big_endian(&mut bytes);
    bytes
}

#[test]
fn hash_meets_difficulty_when_the_product_fits() {
    let one = Uint256::from_u64(1);
    assert!(hash_meets_difficulty(&[0xff; 32], one));
    assert!(!hash_meets_difficulty(&[0xff; 32], Uint256::from_u64(2)));
    assert!(hash_meets_difficulty(&[0; 32], Uint256 { limbs: [u64::MAX; 4] }));
    let half = hash_of(U256::MAX / 2);
    assert!(hash_meets_difficulty(&half, Uint256::from_u64(2)));
    assert!(!hash_meets_difficulty(&half, Uint256::from_u64(3)));
    let mut top = [0u8; 32];
    top[0] = 1;
    assert!(hash_meets_difficulty(&top, Uint256::from_u64(255)));
    assert!(!hash_meets_difficulty(&top, Uint256::from_u64(256)));
    let mut low = [0u8; 32];
    low[31] = 2;
    assert!(hash_meets_difficulty(&low, Uint256 { limbs: [u64::MAX, u64::MAX, u64::MAX, u64::MAX >> 1] }));
    assert!(!hash_meets_difficulty(&low, Uint256 { limbs: [0, 0, 0, 1 << 63] }));
}

#[test]
fn hash_meets_difficulty_agrees_with_wide_multiplication() {
    let hundred = Uint256::from_u64(100);
    let limit = U256::MAX / 100;
    assert!(hash_meets_difficulty(&hash_of(limit), hundred));
    assert!(!hash_meets_difficulty(&hash_of(limit + 1), hundred));
}

#[test]
fn from_u64_fills_the_lowest_limb() {
    assert_eq!(Uint256::from_u64(100).limbs, [100, 0, 0, 0]);
    assert_eq!(U256(Uint256::from_u64(u64::MAX).limbs), U256::from(u64::MAX));
}

fn sample_seal() -> Seal {
    let mut signature = [0u8; 32];
    for i in 0..32 {
        signature[i] = i as u8 + 1;
    }
    Seal {
        difficulty: Uint256 { limbs: [0x0102030405060708, 2, 3, 4] },
        signature,
        peer: Uint256 { limbs: [5, 6, 7, 0xf0e0d0c0b0a09080] },
    }
}

#[test]
fn seal_on_the_wire() {
    let seal = sample_seal();
    let bytes = encode_seal(&seal);
    assert_eq!(bytes.len(), 96);
    assert_eq!(&bytes[..8], &[8, 7, 6, 5, 4, 3, 2, 1]);
    assert_eq!(&bytes[8..16], &[2, 0, 0, 0, 0, 0, 0, 0]);
    assert_eq!(&bytes[32..64], &seal.signature);
    assert_eq!(&bytes[88..96], &[0x80, 0x90, 0xa0, 0xb0, 0xc0, 0xd0, 0xe0, 0xf0]);
    let mut little = [0u8; 32];
    U256(seal.difficulty.limbs).to_little_endian(&mut little);
    assert_eq!(&bytes[..32], &little);
    assert_eq!(decode_seal(&bytes), Some(seal));
}

#[test]
fn decode_seal_reads_the_front_and_needs_96_bytes() {
    let seal = sample_seal();
    let mut bytes = encode_seal(&seal);
    bytes.extend_from_slice(&[9, 9, 9]);
    assert_eq!(decode_seal(&bytes), Some(seal));
    assert_eq!(decode_seal(&bytes[..95]), None);
    assert_eq!(decode_seal(&[]), None);
}

#[test]
fn verify_seal_checks_the_hash_of_the_seal() {
    let mut seal = sample_seal();
    seal.signature = [0; 32];
    seal.signature[31] = 1;
    let bytes = encode_seal(&seal);
    assert!(verify_seal(&bytes, Uint256 { limbs: [u64::MAX; 4] }));
    seal.signature[0] = 1;
    let high = encode_seal(&seal);
    assert!(verify_seal(&high, Uint256::from_u64(100)));
    assert!(!verify_seal(&high, Uint256::from_u64(256)));
    assert!(!verify_seal(&high[..95], Uint256::from_u64(1)));
    assert!(!verify_seal(&[], Uint256::from_u64(1)));
}

#[test]
fn algorithms_verify_seals() {
    let minimal = MinimalSha3Algorithm::new(Arc::new(7u32));
    assert_eq!(minimal.difficulty().limbs, [100, 0, 0, 0]);
    let mut seal = sample_seal();
    seal.signature = [0; 32];
    seal.signature[0] = 2;
    let bytes = encode_seal(&seal);
    assert!(minimal.verify(&bytes, minimal.difficulty()));
    assert!(minimal.clone().verify(&bytes, Uint256::from_u64(127)));
    assert!(!minimal.verify(&bytes, Uint256::from_u64(128)));
    assert!(!minimal.verify(&bytes[..10], minimal.difficulty()));
    let full = Sha3Algorithm::new(Arc::new("client"));
    assert!(full.verify(&bytes, Uint256::from_u64(127)));
    assert!(!full.clone().verify(&bytes, Uint256::from_u64(128)));
}

#[test]
fn interact_computes_the_sha3_digest() {
    let empty_digest = [
        0xa7, 0xff, 0xc6, 0xf8, 0xbf, 0x1e, 0xd7, 0x66, 0x51, 0xc1, 0x47, 0x56, 0xa0, 0x61, 0xd6, 0x62, 0xf5, 0x80,
        0xff, 0x4d, 0xe4, 0x3b, 0x49, 0xfa, 0x82, 0xd8, 0x0a, 0x4b, 0x80, 0xf8, 0x43, 0x4a,
    ];
    let work = Interact { message: [1; 32], peer: [2; 32] }.compute();
    assert_ne!(work, empty_digest);
    assert_ne!(work, [1; 32]);
    assert_ne!(work, Interact { message: [2; 32], peer: [1; 32] }.compute());
    assert_eq!(work, Interact { message: [1; 32], peer: [2; 32] }.compute());
    let mut data = vec![1u8; 32];
    data.extend_from_slice(&[2u8; 32]);
    let expected: [u8; 32] = sha3::Sha3_256::digest(&data).into();
    assert_eq!(work, expected);
    let of_nothing: [u8; 32] = sha3::Sha3_256::digest(b"").into();
    assert_eq!(of_nothing, empty_digest);
}

#[test]
fn session_keys_hold_the_discovery_key() {
    let id = AuthorityDiscoveryId([3; 32]);
    assert_eq!(session_keys(id), SessionKeys { authority_discovery: id });
}

#[test]
fn testnet_genesis_builds_the_configuration() {
    let alice = AccountId([1; 32]);
    let bob = AccountId([2; 32]);
    let mike = AccountId([3; 32]);
    let config = testnet_genesis(
        &[0, 97, 115, 109],
        vec![(alice, AuthorityDiscoveryId([11; 32])), (bob, AuthorityDiscoveryId([12; 32]))],
        alice,
        vec![alice, bob, mike],
    );
    let system = config.system.unwrap();
    assert_eq!(system.code, vec![0, 97, 115, 109]);
    assert_eq!(system.changes_trie_config, None);
    assert_eq!(ENDOWMENT, 1u128 << 60);
    assert_eq!(
        config.pallet_balances.unwrap().balances,
        vec![(alice, 1u128 << 60), (bob, 1u128 << 60), (mike, 1u128 << 60)]
    );
    assert_eq!(
        config.pallet_session.unwrap().keys,
        vec![
            (alice, alice, SessionKeys { authority_discovery: AuthorityDiscoveryId([11; 32]) }),
            (bob, bob, SessionKeys { authority_discovery: AuthorityDiscoveryId([12; 32]) }),
        ]
    );
    assert!(config.pallet_authority_discovery.unwrap().keys.is_empty());
    assert_eq!(config.pallet_sudo.unwrap().key, alice);
}

#[test]
fn testnet_genesis_of_nothing() {
    let config = testnet_genesis(&[], vec![], AccountId([0; 32]), vec![]);
    assert!(config.system.unwrap().code.is_empty());
    assert!(config.pallet_balances.unwrap().balances.is_empty());
    assert!(config.pallet_session.unwrap().keys.is_empty());
}

#[test]
fn next_nonce_counts_up_and_starts_over() {
    assert_eq!(next_nonce(Uint256::from_u64(0), false).limbs, [1, 0, 0, 0]);
    assert_eq!(next_nonce(Uint256::from_u64(41), false).limbs, [42, 0, 0, 0]);
    assert_eq!(next_nonce(Uint256::from_u64(41), true).limbs, [0, 0, 0, 0]);
    assert_eq!(next_nonce(Uint256 { limbs: [u64::MAX, 0, 0, 0] }, false).limbs, [0, 1, 0, 0]);
    assert_eq!(next_nonce(Uint256 { limbs: [u64::MAX, u64::MAX, 7, 0] }, false).limbs, [0, 0, 8, 0]);
    let below_last = Uint256 { limbs: [u64::MAX - 2, u64::MAX, u64::MAX, u64::MAX] };
    assert_eq!(next_nonce(below_last, false).limbs, [u64::MAX - 1, u64::MAX, u64::MAX, u64::MAX]);
    let last_but_one = Uint256 { limbs: [u64::MAX - 1, u64::MAX, u64::MAX, u64::MAX] };
    assert_eq!(next_nonce(last_but_one, false).limbs, [0, 0, 0, 0]);
    assert_eq!(next_nonce(Uint256 { limbs: [u64::MAX; 4] }, false).limbs, [0, 0, 0, 0]);
    assert_eq!(next_nonce(Uint256 { limbs: [u64::MAX; 4] }, true).limbs, [0, 0, 0, 0]);
}

#[test]
fn next_nonce_agrees_with_wide_arithmetic() {
    let start = U256::from(u64::MAX) * U256::from(u64::MAX);
    let next = next_nonce(Uint256 { limbs: start.0 }, false);
    assert_eq!(U256(next.limbs), start + 1);
}
