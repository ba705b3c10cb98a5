//! What the protocol asks of a signature scheme, and a keyed-hash scheme that
//! meets it for simulations and tests.

use crate::encoding::be_bytes;
use crate::encoding::encode_one;
use crate::encoding::encoded;
use crate::encoding::put_u64;
use crate::hash::hash;
use crate::hash::hashed;
use vstd::prelude::*;
use vstd::utf8::encode_utf8;

verus! {

/// A signature scheme with fixed-width, 64-bit signatures. Keys are text;
/// messages are bytes.
pub trait SignatureScheme {
    /// Whether `signature` is a valid signature of `message` under `public_key`.
    spec fn accepts(&self, public_key: Seq<char>, signature: u64, message: Seq<u8>) -> bool;

    /// The public key that belongs to a private key.
    spec fn public_key_of(&self, private_key: Seq<char>) -> Seq<char>;

    /// Signs `message`. The signature verifies under the public key that
    /// belongs to `private_key`.
    fn sign(&self, private_key: &str, message: &[u8]) -> (signature: u64)
        ensures
            self.accepts(self.public_key_of(private_key@), signature, message@),
    ;

    /// Decides whether `signature` is valid.
    fn verify(&self, public_key: &str, signature: u64, message: &[u8]) -> (ok: bool)
        ensures
            ok == self.accepts(public_key@, signature, message@),
    ;
}

/// Whether each key accepts at most one signature for each message.
pub open spec fn unique_signatures<S: SignatureScheme>(scheme: S) -> bool {
    forall|key: Seq<char>, message: Seq<u8>, a: u64, b: u64|
        #[trigger] scheme.accepts(key, a, message) && #[trigger] scheme.accepts(key, b, message)
            ==> a == b
}

/// The signature of a single number: the proposer signs the dependency and,
/// at each hop, the signature it was given.
pub fn sign_word<S: SignatureScheme>(scheme: &S, private_key: &str, word: u64) -> (signature: u64)
    ensures
        scheme.accepts(scheme.public_key_of(private_key@), signature, encoded(seq![word])),
{
    let message = encode_one(word);
    scheme.sign(private_key, message.as_slice())
}

/// A scheme in which the signature of a message is the hash of the key and
/// the message. The key that signs is the key that verifies, so it
/// authenticates only between parties that share the key; it stands in where
/// no asymmetric scheme is at hand.
#[derive(Clone, Copy, Debug)]
pub struct KeyedHash;

/// The bytes that `KeyedHash` hashes: the key's length, the key, the message.
pub open spec fn keyed_input(key: Seq<char>, message: Seq<u8>) -> Seq<u8> {
    be_bytes(encode_utf8(key).len() as u64) + encode_utf8(key) + message
}

impl KeyedHash {
    /// The one signature of `message` under `key`.
    pub fn tag(key: &str, message: &[u8]) -> (signature: u64)
        ensures
            signature == hashed(keyed_input(key@, message@)),
    {
        let key_bytes = key.as_bytes();
        let mut input: Vec<u8> = Vec::new();
        put_u64(&mut input, key_bytes.len() as u64);
        input.extend_from_slice(key_bytes);
        input.extend_from_slice(message);
        assert(input@ =~= keyed_input(key@, message@));
        hash(input.as_slice())
    }
}

impl SignatureScheme for KeyedHash {
    open spec fn accepts(&self, public_key: Seq<char>, signature: u64, message: Seq<u8>) -> bool {
        signature == hashed(keyed_input(public_key, message))
    }

    open spec fn public_key_of(&self, private_key: Seq<char>) -> Seq<char> {
        private_key
    }

    fn sign(&self, private_key: &str, message: &[u8]) -> (signature: u64) {
        KeyedHash::tag(private_key, message)
    }

    fn verify(&self, public_key: &str, signature: u64, message: &[u8]) -> (ok: bool) {
        signature == KeyedHash::tag(public_key, message)
    }
}

/// Under `KeyedHash` a key accepts exactly one signature for each message.
pub proof fn lemma_keyed_hash_unique()
    ensures
        unique_signatures(KeyedHash),
{
}

} // verus!
