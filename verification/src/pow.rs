//! The proof-of-work fallback: a seal carries a hash, and the hash meets a
//! difficulty when their product still fits in 256 bits.

use primitive_types::U256;
use sha3::Digest;
use sha3::Sha3_256;
use std::sync::Arc;
use vstd::prelude::*;

verus! {

/// The first number that does not fit in 256 bits.
pub open spec fn two_to_256() -> nat {
    0x1_0000_0000_0000_0000_0000_0000_0000_0000_0000_0000_0000_0000_0000_0000_0000_0000nat
}

/// The number that bytes spell, most significant byte first.
pub open spec fn be_number(bytes: Seq<u8>) -> nat
    decreases bytes.len(),
{
    if bytes.len() == 0 {
        0
    } else {
        be_number(bytes.drop_last()) * 256 + bytes.last() as nat
    }
}

/// The number that 64-bit limbs spell, least significant limb first.
pub open spec fn limbs_number(limbs: Seq<u64>) -> nat
    decreases limbs.len(),
{
    if limbs.len() == 0 {
        0
    } else {
        limbs_number(limbs.drop_last()) + limbs.last() as nat * pow_two_64(limbs.len() - 1)
    }
}

/// Two to the power `64 * limb`.
pub open spec fn pow_two_64(limb: int) -> nat
    decreases limb,
{
    if limb <= 0 {
        1
    } else {
        0x1_0000_0000_0000_0000nat * pow_two_64(limb - 1)
    }
}

/// A 256-bit number, held as four limbs, least significant first.
#[derive(Clone, Copy, Debug, PartialEq, Eq)]
pub struct Uint256 {
    pub limbs: [u64; 4],
}

impl Uint256 {
    /// The number held.
    pub open spec fn value(&self) -> nat {
        limbs_number(self.limbs@)
    }

    /// The 256-bit number equal to `x`.
    pub fn from_u64(x: u64) -> (n: Uint256)
        ensures
            n.value() == x,
            n.limbs@ == seq![x, 0, 0, 0],
    {
        let n = Uint256 { limbs: [x, 0, 0, 0] };
        proof {
            assert(n.limbs@ =~= seq![x, 0, 0, 0]);
            lemma_limbs_number_four(n.limbs@);
            assert(n.limbs@[0] == x && n.limbs@[1] == 0 && n.limbs@[2] == 0 && n.limbs@[3] == 0);
        }
        n
    }
}

/// The number of four limbs, written out.
pub proof fn lemma_limbs_number_four(limbs: Seq<u64>)
    requires
        limbs.len() == 4,
    ensures
        limbs_number(limbs) == limbs[0] as nat + limbs[1] as nat * 0x1_0000_0000_0000_0000nat
            + limbs[2] as nat * 0x1_0000_0000_0000_0000_0000_0000_0000_0000nat + limbs[3] as nat
            * 0x1_0000_0000_0000_0000_0000_0000_0000_0000_0000_0000_0000_0000nat,
{
    reveal_with_fuel(limbs_number, 5);
    reveal_with_fuel(pow_two_64, 5);
    let three = limbs.drop_last();
    let two = three.drop_last();
    let one = two.drop_last();
    assert(one.drop_last().len() == 0);
    assert(pow_two_64(0) == 1);
    assert(pow_two_64(1) == 0x1_0000_0000_0000_0000nat);
    assert(pow_two_64(2) == 0x1_0000_0000_0000_0000_0000_0000_0000_0000nat);
    assert(pow_two_64(3) == 0x1_0000_0000_0000_0000_0000_0000_0000_0000_0000_0000_0000_0000nat);
    assert(limbs_number(one) == limbs[0] as nat * pow_two_64(0));
    assert(limbs_number(two) == limbs_number(one) + limbs[1] as nat * pow_two_64(1));
    assert(limbs_number(three) == limbs_number(two) + limbs[2] as nat * pow_two_64(2));
    assert(limbs_number(limbs) == limbs_number(three) + limbs[3] as nat * pow_two_64(3));
}

/// Calls `U256::overflowing_mul` from primitive_types on the number that
/// `hash` spells big-endian (`U256::from` of the byte slice) and on the number
/// with the limbs of `difficulty`. The flag it returns is set exactly when
/// the product does not fit in 256 bits.
#[verifier::external_body]
fn product_overflows(hash: &[u8; 32], difficulty: &Uint256) -> (overflowed: bool)
    ensures
        overflowed == (be_number(hash@) * difficulty.value() >= two_to_256()),
{
    let num_hash = U256::from(&hash[..]);
    let (_, overflowed) = num_hash.overflowing_mul(U256(difficulty.limbs));
    overflowed
}

/// Whether `hash` satisfies `difficulty`: the two are multiplied, and the
/// hash is low enough when the product does not overflow 256 bits.
pub fn hash_meets_difficulty(hash: &[u8; 32], difficulty: Uint256) -> (meets: bool)
    ensures
        meets == (be_number(hash@) * difficulty.value() < two_to_256()),
{
    !product_overflows(hash, &difficulty)
}

/// The eight bytes of `x`, least significant first.
pub open spec fn le_bytes(x: u64) -> Seq<u8> {
    seq![
        x as u8,
        (x >> 8) as u8,
        (x >> 16) as u8,
        (x >> 24) as u8,
        (x >> 32) as u8,
        (x >> 40) as u8,
        (x >> 48) as u8,
        (x >> 56) as u8,
    ]
}

/// The number whose little-endian bytes are the eight bytes of `bytes` from
/// `at` on.
pub open spec fn le_value(bytes: Seq<u8>, at: int) -> u64 {
    (bytes[at] as u64) | (bytes[at + 1] as u64) << 8 | (bytes[at + 2] as u64) << 16 | (bytes[at
        + 3] as u64) << 24 | (bytes[at + 4] as u64) << 32 | (bytes[at + 5] as u64) << 40 | (bytes[at
        + 6] as u64) << 48 | (bytes[at + 7] as u64) << 56
}

/// The 32 bytes of a 256-bit number on the wire: its limbs in order, each
/// least significant byte first.
pub open spec fn number_bytes(n: Uint256) -> Seq<u8> {
    le_bytes(n.limbs@[0]) + le_bytes(n.limbs@[1]) + le_bytes(n.limbs@[2]) + le_bytes(n.limbs@[3])
}

/// What a block carries as its proof of work.
#[derive(Clone, Copy, Debug, PartialEq, Eq)]
pub struct Seal {
    pub difficulty: Uint256,
    pub signature: [u8; 32],
    pub peer: Uint256,
}

/// The 96 bytes of a seal on the wire: difficulty, signature, peer.
pub open spec fn seal_bytes(seal: Seal) -> Seq<u8> {
    number_bytes(seal.difficulty) + seal.signature@ + number_bytes(seal.peer)
}

/// Reading back the little-endian bytes of a number gives the number, and
/// writing out the number read from eight bytes gives those bytes.
pub proof fn lemma_le_round_trip(x: u64, bytes: Seq<u8>, at: int)
    requires
        0 <= at,
        at + 8 <= bytes.len(),
    ensures
        le_value(le_bytes(x), 0) == x,
        le_bytes(le_value(bytes, at)) == bytes.subrange(at, at + 8),
{
    assert((x as u8 as u64) | ((x >> 8) as u8 as u64) << 8 | ((x >> 16) as u8 as u64) << 16 | ((x
        >> 24) as u8 as u64) << 24 | ((x >> 32) as u8 as u64) << 32 | ((x >> 40) as u8 as u64) << 40
        | ((x >> 48) as u8 as u64) << 48 | ((x >> 56) as u8 as u64) << 56 == x) by (bit_vector);
    let b0 = bytes[at];
    let b1 = bytes[at + 1];
    let b2 = bytes[at + 2];
    let b3 = bytes[at + 3];
    let b4 = bytes[at + 4];
    let b5 = bytes[at + 5];
    let b6 = bytes[at + 6];
    let b7 = bytes[at + 7];
    let y = le_value(bytes, at);
    assert(y == (b0 as u64) | (b1 as u64) << 8 | (b2 as u64) << 16 | (b3 as u64) << 24 | (b4 as u64)
        << 32 | (b5 as u64) << 40 | (b6 as u64) << 48 | (b7 as u64) << 56 ==> y as u8 == b0 && (y
        >> 8) as u8 == b1 && (y >> 16) as u8 == b2 && (y >> 24) as u8 == b3 && (y >> 32) as u8 == b4
        && (y >> 40) as u8 == b5 && (y >> 48) as u8 == b6 && (y >> 56) as u8 == b7)
        by (bit_vector);
    assert(le_bytes(y) =~= bytes.subrange(at, at + 8));
}

fn read_le(bytes: &[u8], at: usize) -> (x: u64)
    requires
        at + 8 <= bytes@.len(),
    ensures
        x == le_value(bytes@, at as int),
{
    (bytes[at] as u64) | (bytes[at + 1] as u64) << 8 | (bytes[at + 2] as u64) << 16 | (bytes[at
        + 3] as u64) << 24 | (bytes[at + 4] as u64) << 32 | (bytes[at + 5] as u64) << 40 | (bytes[at
        + 6] as u64) << 48 | (bytes[at + 7] as u64) << 56
}

fn read_number(bytes: &[u8], at: usize) -> (n: Uint256)
    requires
        at + 32 <= bytes@.len() <= usize::MAX,
    ensures
        number_bytes(n) == bytes@.subrange(at as int, at + 32),
{
    let n = Uint256 {
        limbs: [
            read_le(bytes, at),
            read_le(bytes, at + 8),
            read_le(bytes, at + 16),
            read_le(bytes, at + 24),
        ],
    };
    proof {
        lemma_le_round_trip(0, bytes@, at as int);
        lemma_le_round_trip(0, bytes@, at + 8);
        lemma_le_round_trip(0, bytes@, at + 16);
        lemma_le_round_trip(0, bytes@, at + 24);
        assert(number_bytes(n) =~= bytes@.subrange(at as int, at + 32));
    }
    n
}

/// Reads a seal from the front of `bytes`; what follows the seal is left
/// unread. There is no seal in fewer than 96 bytes.
pub fn decode_seal(bytes: &[u8]) -> (r: Option<Seal>)
    ensures
        match r {
            Some(seal) => bytes@.len() >= 96 && seal_bytes(seal) == bytes@.take(96),
            None => bytes@.len() < 96,
        },
{
    if bytes.len() < 96 {
        return None;
    }
    let difficulty = read_number(bytes, 0);
    let mut signature = [0u8; 32];
    let mut i: usize = 0;
    while i < 32
        invariant
            i <= 32,
            bytes@.len() >= 96,
            forall|j: int| 0 <= j < i ==> signature@[j] == bytes@[32 + j],
        decreases 32 - i,
    {
        signature[i] = bytes[32 + i];
        i += 1;
    }
    let peer = read_number(bytes, 64);
    let seal = Seal { difficulty, signature, peer };
    assert(seal_bytes(seal) =~= bytes@.subrange(0, 32) + bytes@.subrange(32, 64) + bytes@.subrange(
        64,
        96,
    ));
    assert(seal_bytes(seal) =~= bytes@.take(96));
    Some(seal)
}

fn write_le(out: &mut Vec<u8>, x: u64)
    ensures
        final(out)@ == old(out)@ + le_bytes(x),
{
    out.push(x as u8);
    out.push((x >> 8) as u8);
    out.push((x >> 16) as u8);
    out.push((x >> 24) as u8);
    out.push((x >> 32) as u8);
    out.push((x >> 40) as u8);
    out.push((x >> 48) as u8);
    out.push((x >> 56) as u8);
    assert(out@ =~= old(out)@ + le_bytes(x));
}

fn write_number(out: &mut Vec<u8>, n: &Uint256)
    ensures
        final(out)@ == old(out)@ + number_bytes(*n),
{
    write_le(out, n.limbs[0]);
    write_le(out, n.limbs[1]);
    write_le(out, n.limbs[2]);
    write_le(out, n.limbs[3]);
    assert(out@ =~= old(out)@ + number_bytes(*n));
}

/// Writes a seal as it goes on the wire.
pub fn encode_seal(seal: &Seal) -> (bytes: Vec<u8>)
    ensures
        bytes@ == seal_bytes(*seal),
{
    let mut out: Vec<u8> = Vec::new();
    write_number(&mut out, &seal.difficulty);
    let mut i: usize = 0;
    while i < 32
        invariant
            i <= 32,
            out@ == number_bytes(seal.difficulty) + seal.signature@.take(i as int),
        decreases 32 - i,
    {
        out.push(seal.signature[i]);
        assert(out@ =~= number_bytes(seal.difficulty) + seal.signature@.take(i + 1));
        i += 1;
    }
    assert(seal.signature@.take(32) =~= seal.signature@);
    write_number(&mut out, &seal.peer);
    out
}

/// Numbers with the same little-endian bytes are the same number.
pub proof fn lemma_le_bytes_injective(x: u64, y: u64)
    requires
        le_bytes(x) == le_bytes(y),
    ensures
        x == y,
{
    lemma_le_round_trip(x, le_bytes(x), 0);
    lemma_le_round_trip(y, le_bytes(y), 0);
}

/// 256-bit numbers with the same bytes on the wire are the same number.
pub proof fn lemma_number_bytes_injective(a: Uint256, b: Uint256)
    requires
        number_bytes(a) == number_bytes(b),
    ensures
        a == b,
{
    let wire = number_bytes(a);
    assert(wire.subrange(0, 8) =~= le_bytes(a.limbs@[0]));
    assert(wire.subrange(0, 8) =~= le_bytes(b.limbs@[0]));
    assert(wire.subrange(8, 16) =~= le_bytes(a.limbs@[1]));
    assert(wire.subrange(8, 16) =~= le_bytes(b.limbs@[1]));
    assert(wire.subrange(16, 24) =~= le_bytes(a.limbs@[2]));
    assert(wire.subrange(16, 24) =~= le_bytes(b.limbs@[2]));
    assert(wire.subrange(24, 32) =~= le_bytes(a.limbs@[3]));
    assert(wire.subrange(24, 32) =~= le_bytes(b.limbs@[3]));
    lemma_le_bytes_injective(a.limbs@[0], b.limbs@[0]);
    lemma_le_bytes_injective(a.limbs@[1], b.limbs@[1]);
    lemma_le_bytes_injective(a.limbs@[2], b.limbs@[2]);
    lemma_le_bytes_injective(a.limbs@[3], b.limbs@[3]);
    assert(a.limbs@ =~= b.limbs@);
    assert(a.limbs == b.limbs);
}

/// Seals with the same bytes on the wire are the same seal, so a seal that
/// is written and read back is the seal that was written.
pub proof fn lemma_seal_bytes_injective(a: Seal, b: Seal)
    requires
        seal_bytes(a) == seal_bytes(b),
    ensures
        a == b,
{
    let wire = seal_bytes(a);
    assert(number_bytes(a.difficulty).len() == 32 && number_bytes(b.difficulty).len() == 32);
    assert(number_bytes(a.peer).len() == 32 && number_bytes(b.peer).len() == 32);
    assert(wire.subrange(0, 32) =~= number_bytes(a.difficulty));
    assert(wire.subrange(0, 32) =~= number_bytes(b.difficulty));
    assert(wire.subrange(32, 64) =~= a.signature@);
    assert(wire.subrange(32, 64) =~= b.signature@);
    assert(wire.subrange(64, 96) =~= number_bytes(a.peer));
    assert(wire.subrange(64, 96) =~= number_bytes(b.peer));
    lemma_number_bytes_injective(a.difficulty, b.difficulty);
    lemma_number_bytes_injective(a.peer, b.peer);
    assert(a.signature == b.signature);
}

/// The digest that SHA3-256 gives to `data`.
pub uninterp spec fn sha3_256_of(data: Seq<u8>) -> Seq<u8>;

/// Calls `Sha3_256::digest` from sha3, which returns the 32-byte SHA3-256
/// digest of the bytes it is given.
#[verifier::external_body]
fn sha3_256(data: &[u8]) -> (digest: [u8; 32])
    ensures
        digest@ == sha3_256_of(data@),
{
    Sha3_256::digest(data).into()
}

/// An attempt at a seal that is not yet computed.
#[derive(Clone, Copy, Debug, PartialEq, Eq)]
pub struct Interact {
    pub message: [u8; 32],
    pub peer: [u8; 32],
}

impl Interact {
    /// Computes the work of the attempt: the SHA3-256 digest of the message
    /// followed by the peer.
    pub fn compute(self) -> (work: [u8; 32])
        ensures
            work@ == sha3_256_of(self.message@ + self.peer@),
    {
        let mut data: Vec<u8> = Vec::new();
        data.extend_from_slice(self.message.as_slice());
        data.extend_from_slice(self.peer.as_slice());
        assert(data@ =~= self.message@ + self.peer@);
        sha3_256(data.as_slice())
    }
}

/// Whether the bytes hold a seal whose hash meets `difficulty`.
pub open spec fn seal_passes(bytes: Seq<u8>, difficulty: Uint256) -> bool {
    bytes.len() >= 96 && be_number(bytes.subrange(32, 64)) * difficulty.value() < two_to_256()
}

/// Checks the seal in `bytes` against `difficulty`.
pub fn verify_seal(bytes: &[u8], difficulty: Uint256) -> (ok: bool)
    ensures
        ok == seal_passes(bytes@, difficulty),
{
    match decode_seal(bytes) {
        Some(seal) => {
            assert(seal.signature@ =~= seal_bytes(seal).subrange(32, 64));
            assert(bytes@.take(96).subrange(32, 64) =~= bytes@.subrange(32, 64));
            hash_meets_difficulty(&seal.signature, difficulty)
        },
        None => false,
    }
}

/// Calls `U256::saturating_add` from primitive_types: the sum of the two
/// numbers, or the largest 256-bit number where the sum does not fit.
#[verifier::external_body]
fn saturating_sum(a: &Uint256, b: &Uint256) -> (sum: Uint256)
    ensures
        sum.value() == if a.value() + b.value() < two_to_256() {
            a.value() + b.value()
        } else {
            (two_to_256() - 1) as nat
        },
{
    Uint256 { limbs: U256(a.limbs).saturating_add(U256(b.limbs)).0 }
}

/// A 256-bit number is the largest one exactly when all its limbs are.
pub proof fn lemma_largest(n: Uint256)
    ensures
        n.value() < two_to_256(),
        n.value() == two_to_256() - 1 <==> n.limbs@ == seq![u64::MAX, u64::MAX, u64::MAX, u64::MAX],
{
    lemma_limbs_number_four(n.limbs@);
    let all = seq![u64::MAX, u64::MAX, u64::MAX, u64::MAX];
    if n.value() == two_to_256() - 1 {
        assert(n.limbs@ =~= all);
    }
    if n.limbs@ == all {
        assert(n.limbs@[0] == all[0] && n.limbs@[1] == all[1] && n.limbs@[2] == all[2] && n.limbs@[3]
            == all[3]);
    }
}

/// The nonce to try after an attempt with `nonce`. After an attempt that met
/// the difficulty the search starts again from zero. Otherwise the next
/// nonce follows, and the search wraps to zero in place of the largest
/// 256-bit number.
pub fn next_nonce(nonce: Uint256, met: bool) -> (next: Uint256)
    ensures
        next.value() == if met || nonce.value() + 1 >= two_to_256() - 1 {
            0
        } else {
            nonce.value() + 1
        },
{
    if met {
        return Uint256::from_u64(0);
    }
    let next = saturating_sum(&nonce, &Uint256::from_u64(1));
    proof {
        lemma_largest(next);
        lemma_largest(nonce);
    }
    if next.limbs[0] == u64::MAX && next.limbs[1] == u64::MAX && next.limbs[2] == u64::MAX
        && next.limbs[3] == u64::MAX {
        assert(next.limbs@ =~= seq![u64::MAX, u64::MAX, u64::MAX, u64::MAX]);
        Uint256::from_u64(0)
    } else {
        next
    }
}

/// The minimal algorithm: the difficulty is fixed.
pub struct MinimalSha3Algorithm<C> {
    client: Arc<C>,
}

impl<C> MinimalSha3Algorithm<C> {
    /// The client the algorithm was made with.
    pub closed spec fn client(&self) -> Arc<C> {
        self.client
    }

    /// The algorithm over `client`.
    pub fn new(client: Arc<C>) -> (algorithm: Self)
        ensures
            algorithm.client() == client,
    {
        Self { client }
    }

    /// The difficulty, which is 100 whatever the parent block.
    pub fn difficulty(&self) -> (difficulty: Uint256)
        ensures
            difficulty.value() == 100,
    {
        Uint256::from_u64(100)
    }

    /// Whether `seal` holds a seal whose hash meets `difficulty`.
    pub fn verify(&self, seal: &[u8], difficulty: Uint256) -> (ok: bool)
        ensures
            ok == seal_passes(seal@, difficulty),
    {
        verify_seal(seal, difficulty)
    }
}

impl<C> Clone for MinimalSha3Algorithm<C> {
    fn clone(&self) -> (copy: Self)
        ensures
            copy.client() == self.client(),
    {
        Self::new(self.client.clone())
    }
}

/// The complete algorithm: the difficulty is that of the runtime, which the
/// caller fetches through the client and hands to `verify`.
pub struct Sha3Algorithm<C> {
    client: Arc<C>,
}

impl<C> Sha3Algorithm<C> {
    /// The client the algorithm was made with.
    pub closed spec fn client(&self) -> Arc<C> {
        self.client
    }

    /// The algorithm over `client`.
    pub fn new(client: Arc<C>) -> (algorithm: Self)
        ensures
            algorithm.client() == client,
    {
        Self { client }
    }

    /// Whether `seal` holds a seal whose hash meets `difficulty`.
    pub fn verify(&self, seal: &[u8], difficulty: Uint256) -> (ok: bool)
        ensures
            ok == seal_passes(seal@, difficulty),
    {
        verify_seal(seal, difficulty)
    }
}

impl<C> Clone for Sha3Algorithm<C> {
    fn clone(&self) -> (copy: Self)
        ensures
            copy.client() == self.client(),
    {
        Self::new(self.client.clone())
    }
}

} // verus!
