//! The peer's side of a hop: it is sent a challenge as hexadecimal text and
//! answers with its signature as text.

use crate::error::PoiError;
use crate::hex::bytes_of_hex;
use crate::hex::format_signature;
use crate::hex::from_hex;
use crate::hex::is_hex_text;
use crate::hex::signature_text;
use crate::signature::SignatureScheme;
use vstd::prelude::*;

verus! {

/// Answers a signing request: reads the payload, signs the bytes it spells
/// with `private_key`, and writes the signature as text. A payload that is
/// not hexadecimal text is refused with `DecodingError`.
pub fn respond<S: SignatureScheme>(scheme: &S, private_key: &str, payload: &[u8]) -> (r: Result<
    Vec<u8>,
    PoiError,
>)
    ensures
        match r {
            Ok(text) => is_hex_text(payload@) && exists|signature: u64|
                #![trigger signature_text(signature)]
                text@ == signature_text(signature) && scheme.accepts(
                    scheme.public_key_of(private_key@),
                    signature,
                    bytes_of_hex(payload@),
                ),
            Err(e) => e == PoiError::DecodingError && !is_hex_text(payload@),
        },
{
    let message = match from_hex(payload) {
        Ok(message) => message,
        Err(e) => {
            return Err(e);
        },
    };
    let signature = scheme.sign(private_key, message.as_slice());
    let text = format_signature(signature);
    assert(text@ == signature_text(signature));
    Ok(text)
}

} // verus!
