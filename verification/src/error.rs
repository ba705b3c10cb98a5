//! The reasons for which an operation of the protocol fails.

use vstd::prelude::*;

verus! {

/// Why selection, generation or verification gave up.
#[derive(Clone, Copy, Debug, PartialEq, Eq, Structural)]
pub enum PoiError {
    /// The node set is too small to seat a committee.
    DegenerateNetwork,
    /// The draw budget ran out before the committee was full.
    DrawsExhausted,
    /// A signer could not be reached within the retry budget.
    OracleUnavailable,
    /// The proof does not have one seed and two signatures for each hop.
    InvalidProofStructure,
    /// The signature at `index` of the proof does not verify.
    InvalidSignature { index: usize },
    /// The bytes are not the encoding of any value.
    DecodingError,
}

} // verus!
