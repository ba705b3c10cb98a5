//! The canonical byte layout of the values that are hashed, signed and sent:
//! a count of fields, then each field, every number as eight big-endian bytes.

use crate::error::PoiError;
use vstd::prelude::*;

verus! {

/// The eight bytes of `x`, most significant first.
pub open spec fn be_bytes(x: u64) -> Seq<u8> {
    seq![
        (x >> 56) as u8,
        (x >> 48) as u8,
        (x >> 40) as u8,
        (x >> 32) as u8,
        (x >> 24) as u8,
        (x >> 16) as u8,
        (x >> 8) as u8,
        x as u8,
    ]
}

/// The number whose big-endian bytes are the eight bytes of `bytes` from `at` on.
pub open spec fn be_value(bytes: Seq<u8>, at: int) -> u64 {
    (bytes[at] as u64) << 56 | (bytes[at + 1] as u64) << 48 | (bytes[at + 2] as u64) << 40 | (
    bytes[at + 3] as u64) << 32 | (bytes[at + 4] as u64) << 24 | (bytes[at + 5] as u64) << 16 | (
    bytes[at + 6] as u64) << 8 | (bytes[at + 7] as u64)
}

/// The fields one after another, eight bytes each.
pub open spec fn payload(fields: Seq<u64>) -> Seq<u8>
    decreases fields.len(),
{
    if fields.len() == 0 {
        Seq::empty()
    } else {
        payload(fields.drop_last()) + be_bytes(fields.last())
    }
}

/// The encoding of `fields`: their count, then the fields.
pub open spec fn encoded(fields: Seq<u64>) -> Seq<u8> {
    be_bytes(fields.len() as u64) + payload(fields)
}

/// Reading back the bytes of a number gives the number.
pub proof fn lemma_be_round_trip(x: u64)
    ensures
        be_bytes(x).len() == 8,
        be_value(be_bytes(x), 0) == x,
{
    let b = be_bytes(x);
    assert(((x >> 56) as u8 as u64) << 56 | ((x >> 48) as u8 as u64) << 48 | ((x >> 40) as u8 as u64)
        << 40 | ((x >> 32) as u8 as u64) << 32 | ((x >> 24) as u8 as u64) << 24 | ((x >> 16) as u8 as u64)
        << 16 | ((x >> 8) as u8 as u64) << 8 | (x as u8 as u64) == x) by (bit_vector);
}

/// Writing out the number read from eight bytes gives those bytes.
pub proof fn lemma_be_bytes_of_value(bytes: Seq<u8>, at: int)
    requires
        0 <= at,
        at + 8 <= bytes.len(),
    ensures
        be_bytes(be_value(bytes, at)) == bytes.subrange(at, at + 8),
{
    let b0 = bytes[at];
    let b1 = bytes[at + 1];
    let b2 = bytes[at + 2];
    let b3 = bytes[at + 3];
    let b4 = bytes[at + 4];
    let b5 = bytes[at + 5];
    let b6 = bytes[at + 6];
    let b7 = bytes[at + 7];
    let x = be_value(bytes, at);
    assert(x == (b0 as u64) << 56 | (b1 as u64) << 48 | (b2 as u64) << 40 | (b3 as u64) << 32 | (
    b4 as u64) << 24 | (b5 as u64) << 16 | (b6 as u64) << 8 | (b7 as u64));
    assert(x == (b0 as u64) << 56 | (b1 as u64) << 48 | (b2 as u64) << 40 | (b3 as u64) << 32 | (
    b4 as u64) << 24 | (b5 as u64) << 16 | (b6 as u64) << 8 | (b7 as u64) ==> (x >> 56) as u8 == b0
        && (x >> 48) as u8 == b1 && (x >> 40) as u8 == b2 && (x >> 32) as u8 == b3 && (x >> 24) as u8
        == b4 && (x >> 16) as u8 == b5 && (x >> 8) as u8 == b6 && x as u8 == b7) by (bit_vector);
    assert(be_bytes(x) =~= bytes.subrange(at, at + 8));
}

/// The payload holds eight bytes for each field, in order.
pub proof fn lemma_payload_layout(fields: Seq<u64>)
    ensures
        payload(fields).len() == 8 * fields.len(),
        forall|j: int, k: int|
            0 <= j < fields.len() && 0 <= k < 8 ==> #[trigger] payload(fields)[8 * j + k]
                == be_bytes(#[trigger] fields[j])[k],
    decreases fields.len(),
{
    if fields.len() > 0 {
        let front = fields.drop_last();
        lemma_payload_layout(front);
        assert forall|j: int, k: int| 0 <= j < fields.len() && 0 <= k < 8 implies #[trigger] payload(
            fields,
        )[8 * j + k] == be_bytes(#[trigger] fields[j])[k] by {
            if j < front.len() {
                assert(payload(front)[8 * j + k] == be_bytes(front[j])[k]);
            }
        }
    }
}

/// An encoding is the count followed by the payload of that many fields.
pub proof fn lemma_encoded_layout(fields: Seq<u64>)
    requires
        fields.len() <= u64::MAX,
    ensures
        encoded(fields).len() == 8 + 8 * fields.len(),
        be_value(encoded(fields), 0) == fields.len(),
        forall|j: int|
            0 <= j < fields.len() ==> be_value(encoded(fields), 8 + 8 * j) == #[trigger] fields[j],
{
    let count = fields.len() as u64;
    let bytes = encoded(fields);
    lemma_payload_layout(fields);
    lemma_be_round_trip(count);
    assert(be_value(bytes, 0) == be_value(be_bytes(count), 0));
    assert forall|j: int| 0 <= j < fields.len() implies be_value(bytes, 8 + 8 * j)
        == #[trigger] fields[j] by {
        let word = be_bytes(fields[j]);
        lemma_be_round_trip(fields[j]);
        assert forall|k: int| 0 <= k < 8 implies bytes[8 + 8 * j + k] == word[k] by {
            assert(bytes[8 + 8 * j + k] == payload(fields)[8 * j + k]);
        }
        assert(be_value(bytes, 8 + 8 * j) == be_value(word, 0));
    }
}

/// Two sequences with the same encoding are the same sequence.
pub proof fn lemma_encoded_injective(a: Seq<u64>, b: Seq<u64>)
    requires
        a.len() <= u64::MAX,
        b.len() <= u64::MAX,
        encoded(a) == encoded(b),
    ensures
        a == b,
{
    lemma_encoded_layout(a);
    lemma_encoded_layout(b);
    assert(a =~= b);
}

/// Appends the eight big-endian bytes of `x`.
pub fn put_u64(out: &mut Vec<u8>, x: u64)
    ensures
        final(out)@ == old(out)@ + be_bytes(x),
{
    out.push((x >> 56) as u8);
    out.push((x >> 48) as u8);
    out.push((x >> 40) as u8);
    out.push((x >> 32) as u8);
    out.push((x >> 24) as u8);
    out.push((x >> 16) as u8);
    out.push((x >> 8) as u8);
    out.push(x as u8);
    assert(out@ =~= old(out)@ + be_bytes(x));
}

fn read_u64(bytes: &[u8], at: usize) -> (x: u64)
    requires
        at + 8 <= bytes@.len(),
    ensures
        x == be_value(bytes@, at as int),
{
    (bytes[at] as u64) << 56 | (bytes[at + 1] as u64) << 48 | (bytes[at + 2] as u64) << 40 | (
    bytes[at + 3] as u64) << 32 | (bytes[at + 4] as u64) << 24 | (bytes[at + 5] as u64) << 16 | (
    bytes[at + 6] as u64) << 8 | (bytes[at + 7] as u64)
}

/// Encodes `fields` in the canonical layout.
pub fn encode(fields: &[u64]) -> (bytes: Vec<u8>)
    ensures
        bytes@ == encoded(fields@),
{
    let mut out: Vec<u8> = Vec::new();
    put_u64(&mut out, fields.len() as u64);
    let mut i: usize = 0;
    while i < fields.len()
        invariant
            i <= fields@.len(),
            out@ == be_bytes(fields@.len() as u64) + payload(fields@.take(i as int)),
        decreases fields@.len() - i,
    {
        put_u64(&mut out, fields[i]);
        proof {
            let next = fields@.take(i + 1);
            assert(next.drop_last() =~= fields@.take(i as int));
            assert(out@ =~= be_bytes(fields@.len() as u64) + payload(next));
        }
        i += 1;
    }
    assert(fields@.take(i as int) =~= fields@);
    out
}

/// Encodes one field.
pub fn encode_one(a: u64) -> (bytes: Vec<u8>)
    ensures
        bytes@ == encoded(seq![a]),
{
    let fields: Vec<u64> = vec![a];
    assert(fields@ =~= seq![a]);
    encode(fields.as_slice())
}

/// Encodes two fields.
pub fn encode_two(a: u64, b: u64) -> (bytes: Vec<u8>)
    ensures
        bytes@ == encoded(seq![a, b]),
{
    let fields: Vec<u64> = vec![a, b];
    assert(fields@ =~= seq![a, b]);
    encode(fields.as_slice())
}

/// Encodes three fields.
pub fn encode_three(a: u64, b: u64, c: u64) -> (bytes: Vec<u8>)
    ensures
        bytes@ == encoded(seq![a, b, c]),
{
    let fields: Vec<u64> = vec![a, b, c];
    assert(fields@ =~= seq![a, b, c]);
    encode(fields.as_slice())
}

/// Whether `bytes` have the canonical layout: a count, then eight bytes for
/// each field counted, and nothing more.
pub open spec fn is_encoding(bytes: Seq<u8>) -> bool {
    &&& bytes.len() >= 8
    &&& (bytes.len() - 8) % 8 == 0
    &&& be_value(bytes, 0) == (bytes.len() - 8) / 8
}

/// The fields that bytes in the canonical layout hold.
pub open spec fn fields_of(bytes: Seq<u8>) -> Seq<u64> {
    Seq::new(((bytes.len() - 8) / 8) as nat, |j: int| be_value(bytes, 8 + 8 * j))
}

/// Decodes bytes in the canonical layout. It succeeds on exactly the bytes
/// that `encode` produces, and gives back the fields that were encoded.
pub fn decode(bytes: &[u8]) -> (r: Result<Vec<u64>, PoiError>)
    ensures
        match r {
            Ok(fields) => {
                &&& is_encoding(bytes@)
                &&& fields@ == fields_of(bytes@)
                &&& encoded(fields@) == bytes@
            },
            Err(e) => {
                &&& e == PoiError::DecodingError
                &&& !is_encoding(bytes@)
                &&& forall|fields: Seq<u64>|
                    fields.len() <= u64::MAX ==> #[trigger] encoded(fields) != bytes@
            },
        },
{
    if bytes.len() < 8 {
        proof {
            assert forall|fields: Seq<u64>| fields.len() <= u64::MAX implies #[trigger] encoded(fields)
                != bytes@ by {
                lemma_encoded_layout(fields);
            }
        }
        return Err(PoiError::DecodingError);
    }
    let count = read_u64(bytes, 0);
    let rest: usize = bytes.len() - 8;
    if rest % 8 != 0 || (rest / 8) as u64 != count {
        proof {
            assert forall|fields: Seq<u64>| fields.len() <= u64::MAX implies #[trigger] encoded(fields)
                != bytes@ by {
                lemma_encoded_layout(fields);
            }
        }
        return Err(PoiError::DecodingError);
    }
    let n: usize = rest / 8;
    let mut out: Vec<u64> = Vec::new();
    let mut i: usize = 0;
    while i < n
        invariant
            i <= n,
            bytes@.len() == 8 + 8 * n,
            bytes@.len() <= usize::MAX,
            out@.len() == i,
            forall|j: int| 0 <= j < i ==> #[trigger] out@[j] == be_value(bytes@, 8 + 8 * j),
        decreases n - i,
    {
        out.push(read_u64(bytes, 8 + 8 * i));
        i += 1;
    }
    proof {
        let fields = out@;
        lemma_payload_layout(fields);
        lemma_be_bytes_of_value(bytes@, 0);
        assert forall|p: int| 0 <= p < bytes@.len() implies encoded(fields)[p] == bytes@[p] by {
            if p < 8 {
                assert(fields.len() as u64 == count);
                assert(bytes@.subrange(0, 8)[p] == bytes@[p]);
                assert(encoded(fields)[p] == be_bytes(count)[p]);
            } else {
                let j = (p - 8) / 8;
                let k = (p - 8) % 8;
                assert(p - 8 == 8 * j + k);
                lemma_be_bytes_of_value(bytes@, 8 + 8 * j);
                assert(bytes@.subrange(8 + 8 * j, 8 + 8 * j + 8)[k] == bytes@[p]);
                assert(fields[j] == be_value(bytes@, 8 + 8 * j));
                assert(payload(fields)[8 * j + k] == be_bytes(fields[j])[k]);
                assert(encoded(fields)[p] == payload(fields)[p - 8]);
            }
        }
        assert(encoded(fields) =~= bytes@);
        assert(fields =~= fields_of(bytes@));
    }
    Ok(out)
}

} // verus!
