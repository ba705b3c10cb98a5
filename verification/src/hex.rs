//! Hexadecimal text, in which challenges and signatures travel between the
//! proposer and the peers it asks.

use crate::encoding::be_bytes;
use crate::encoding::be_value;
use crate::encoding::lemma_be_round_trip;
use crate::encoding::put_u64;
use crate::error::PoiError;
use vstd::prelude::*;

verus! {

/// The character for a digit below sixteen, in lower case.
pub open spec fn digit_char(digit: u8) -> u8 {
    if digit < 10 {
        (48 + digit) as u8
    } else {
        (87 + digit) as u8
    }
}

/// Whether `c` is a hexadecimal digit, in either case.
pub open spec fn is_hex_digit(c: u8) -> bool {
    48 <= c <= 57 || 97 <= c <= 102 || 65 <= c <= 70
}

/// The value of a hexadecimal digit.
pub open spec fn digit_value(c: u8) -> u8 {
    if c <= 57 {
        (c - 48) as u8
    } else if c >= 97 {
        (c - 87) as u8
    } else {
        (c - 55) as u8
    }
}

/// The text of `bytes`: two digits for each byte, the high one first.
pub open spec fn hex_text(bytes: Seq<u8>) -> Seq<u8>
    decreases bytes.len(),
{
    if bytes.len() == 0 {
        Seq::empty()
    } else {
        hex_text(bytes.drop_last()) + seq![
            digit_char(bytes.last() >> 4),
            digit_char(bytes.last() & 15),
        ]
    }
}

/// Whether `text` is hexadecimal text for whole bytes.
pub open spec fn is_hex_text(text: Seq<u8>) -> bool {
    &&& text.len() % 2 == 0
    &&& forall|i: int| 0 <= i < text.len() ==> is_hex_digit(#[trigger] text[i])
}

/// The byte that two digits spell.
pub open spec fn byte_of(high: u8, low: u8) -> u8 {
    (digit_value(high) * 16 + digit_value(low)) as u8
}

/// The bytes that hexadecimal text spells.
pub open spec fn bytes_of_hex(text: Seq<u8>) -> Seq<u8> {
    Seq::new(text.len() / 2, |j: int| byte_of(text[2 * j], text[2 * j + 1]))
}

/// The text of a signature: `0x`, then its eight bytes in hexadecimal, most
/// significant first.
pub open spec fn signature_text(signature: u64) -> Seq<u8> {
    seq![48u8, 120u8] + hex_text(be_bytes(signature))
}

/// Whether `text` is the text of a signature.
pub open spec fn is_signature_text(text: Seq<u8>) -> bool {
    &&& text.len() == 18
    &&& text[0] == 48
    &&& text[1] == 120
    &&& is_hex_text(text.skip(2))
}

/// The two digits of a byte spell that byte.
pub proof fn lemma_digits_of_byte(b: u8)
    ensures
        is_hex_digit(digit_char(b >> 4)),
        is_hex_digit(digit_char(b & 15)),
        byte_of(digit_char(b >> 4), digit_char(b & 15)) == b,
{
    assert(b >> 4 < 16 && b & 15 < 16 && (b >> 4) * 16 + (b & 15) == b) by (bit_vector);
}

/// The text of bytes is hexadecimal text that spells those bytes.
pub proof fn lemma_hex_round_trip(bytes: Seq<u8>)
    ensures
        hex_text(bytes).len() == 2 * bytes.len(),
        is_hex_text(hex_text(bytes)),
        bytes_of_hex(hex_text(bytes)) == bytes,
    decreases bytes.len(),
{
    if bytes.len() > 0 {
        let front = bytes.drop_last();
        lemma_hex_round_trip(front);
        lemma_digits_of_byte(bytes.last());
        let text = hex_text(bytes);
        assert forall|j: int| 0 <= j < bytes.len() implies bytes_of_hex(text)[j] == bytes[j] by {
            if j < front.len() {
                assert(text[2 * j] == hex_text(front)[2 * j]);
                assert(text[2 * j + 1] == hex_text(front)[2 * j + 1]);
                assert(bytes_of_hex(hex_text(front))[j] == front[j]);
            }
        }
        assert(bytes_of_hex(text) =~= bytes);
    } else {
        assert(bytes_of_hex(hex_text(bytes)) =~= bytes);
    }
}

/// The text of a signature is signature text, and reads back as the
/// signature.
pub proof fn lemma_signature_text_round_trip(signature: u64)
    ensures
        is_signature_text(signature_text(signature)),
        be_value(bytes_of_hex(signature_text(signature).skip(2)), 0) == signature,
{
    let digits = hex_text(be_bytes(signature));
    lemma_hex_round_trip(be_bytes(signature));
    lemma_be_round_trip(signature);
    assert(signature_text(signature).skip(2) =~= digits);
}

fn digit_of(value: u8) -> (c: u8)
    requires
        value < 16,
    ensures
        c == digit_char(value),
{
    if value < 10 {
        48 + value
    } else {
        87 + value
    }
}

fn value_of(c: u8) -> (r: Option<u8>)
    ensures
        match r {
            Some(value) => is_hex_digit(c) && value == digit_value(c) && value < 16,
            None => !is_hex_digit(c),
        },
{
    if 48 <= c && c <= 57 {
        Some(c - 48)
    } else if 97 <= c && c <= 102 {
        Some(c - 87)
    } else if 65 <= c && c <= 70 {
        Some(c - 55)
    } else {
        None
    }
}

fn put_hex(out: &mut Vec<u8>, bytes: &[u8])
    ensures
        final(out)@ == old(out)@ + hex_text(bytes@),
{
    let mut i: usize = 0;
    while i < bytes.len()
        invariant
            i <= bytes@.len(),
            out@ == old(out)@ + hex_text(bytes@.take(i as int)),
        decreases bytes@.len() - i,
    {
        let b = bytes[i];
        assert(b >> 4 < 16 && b & 15 < 16) by (bit_vector);
        out.push(digit_of(b >> 4));
        out.push(digit_of(b & 15));
        proof {
            assert(bytes@.take(i + 1).drop_last() =~= bytes@.take(i as int));
            assert(out@ =~= old(out)@ + hex_text(bytes@.take(i + 1)));
        }
        i += 1;
    }
    assert(bytes@.take(i as int) =~= bytes@);
}

/// Writes `bytes` as hexadecimal text.
pub fn to_hex(bytes: &[u8]) -> (text: Vec<u8>)
    ensures
        text@ == hex_text(bytes@),
{
    let mut out: Vec<u8> = Vec::new();
    put_hex(&mut out, bytes);
    out
}

/// Reads hexadecimal text. It fails with `DecodingError` on text of odd
/// length and on text with a character that is no hexadecimal digit.
pub fn from_hex(text: &[u8]) -> (r: Result<Vec<u8>, PoiError>)
    ensures
        match r {
            Ok(bytes) => is_hex_text(text@) && bytes@ == bytes_of_hex(text@),
            Err(e) => e == PoiError::DecodingError && !is_hex_text(text@),
        },
{
    if text.len() % 2 != 0 {
        return Err(PoiError::DecodingError);
    }
    let n: usize = text.len() / 2;
    let mut out: Vec<u8> = Vec::new();
    let mut j: usize = 0;
    while j < n
        invariant
            j <= n,
            text@.len() == 2 * n,
            text@.len() <= usize::MAX,
            out@.len() == j,
            forall|i: int| 0 <= i < 2 * j ==> is_hex_digit(#[trigger] text@[i]),
            forall|k: int| 0 <= k < j ==> #[trigger] out@[k] == byte_of(text@[2 * k], text@[2 * k + 1]),
        decreases n - j,
    {
        let high = match value_of(text[2 * j]) {
            Some(value) => value,
            None => {
                return Err(PoiError::DecodingError);
            },
        };
        let low = match value_of(text[2 * j + 1]) {
            Some(value) => value,
            None => {
                return Err(PoiError::DecodingError);
            },
        };
        out.push(high * 16 + low);
        j += 1;
    }
    assert(out@ =~= bytes_of_hex(text@));
    Ok(out)
}

/// Writes a signature as text.
pub fn format_signature(signature: u64) -> (text: Vec<u8>)
    ensures
        text@ == signature_text(signature),
{
    let mut word: Vec<u8> = Vec::new();
    put_u64(&mut word, signature);
    let mut out: Vec<u8> = Vec::new();
    out.push(48u8);
    out.push(120u8);
    put_hex(&mut out, word.as_slice());
    assert(word@ =~= be_bytes(signature));
    assert(out@ =~= signature_text(signature));
    out
}

/// Reads a signature from text. It succeeds on `0x` followed by sixteen
/// hexadecimal digits, and fails with `DecodingError` on anything else.
pub fn parse_signature(text: &[u8]) -> (r: Result<u64, PoiError>)
    ensures
        match r {
            Ok(signature) => is_signature_text(text@) && signature == be_value(
                bytes_of_hex(text@.skip(2)),
                0,
            ),
            Err(e) => e == PoiError::DecodingError && !is_signature_text(text@),
        },
{
    if text.len() != 18 || text[0] != 48 || text[1] != 120 {
        return Err(PoiError::DecodingError);
    }
    let mut value: u64 = 0;
    let mut i: usize = 2;
    let ghost digits = text@.skip(2);
    while i < 18
        invariant
            2 <= i <= 18,
            i % 2 == 0,
            text@.len() == 18,
            digits == text@.skip(2),
            forall|k: int| 0 <= k < i - 2 ==> is_hex_digit(#[trigger] digits[k]),
            value == partial_value(bytes_of_hex(digits), (i - 2) / 2),
        decreases 18 - i,
    {
        let high = match value_of(text[i]) {
            Some(v) => v,
            None => {
                assert(!is_hex_digit(digits[i - 2]));
                return Err(PoiError::DecodingError);
            },
        };
        let low = match value_of(text[i + 1]) {
            Some(v) => v,
            None => {
                assert(!is_hex_digit(digits[i - 1]));
                return Err(PoiError::DecodingError);
            },
        };
        let byte: u8 = high * 16 + low;
        proof {
            let k = (i - 2) / 2;
            assert(bytes_of_hex(digits)[k] == byte_of(digits[2 * k], digits[2 * k + 1]));
            assert(digits[2 * k] == text@[i as int] && digits[2 * k + 1] == text@[i + 1]);
        }
        value = (value << 8) | (byte as u64);
        i += 2;
    }
    proof {
        lemma_partial_value_all(bytes_of_hex(digits));
    }
    Ok(value)
}

/// The number spelled by the first `count` of eight big-endian bytes.
pub open spec fn partial_value(bytes: Seq<u8>, count: int) -> u64
    decreases count,
{
    if count <= 0 {
        0
    } else {
        (partial_value(bytes, count - 1) << 8) | (bytes[count - 1] as u64)
    }
}

/// All eight bytes spell the number that `be_value` reads.
pub proof fn lemma_partial_value_all(bytes: Seq<u8>)
    requires
        bytes.len() == 8,
    ensures
        partial_value(bytes, 8) == be_value(bytes, 0),
{
    reveal_with_fuel(partial_value, 9);
    let b0 = bytes[0] as u64;
    let b1 = bytes[1] as u64;
    let b2 = bytes[2] as u64;
    let b3 = bytes[3] as u64;
    let b4 = bytes[4] as u64;
    let b5 = bytes[5] as u64;
    let b6 = bytes[6] as u64;
    let b7 = bytes[7] as u64;
    assert(b0 < 256 && b1 < 256 && b2 < 256 && b3 < 256 && b4 < 256 && b5 < 256 && b6 < 256 && b7
        < 256 ==> ((((((((((((((((0u64 << 8) | b0) << 8) | b1) << 8) | b2) << 8) | b3) << 8) | b4) << 8)
        | b5) << 8) | b6) << 8) | b7) == (b0 << 56 | b1 << 48 | b2 << 40 | b3 << 32 | b4 << 24 | b5
        << 16 | b6 << 8 | b7)) by (bit_vector);
}

} // verus!
