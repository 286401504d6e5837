//! The checker role's per-request logic: decode one framed verification
//! request, and turn the two sub-validation verdicts into the one-byte
//! outcome the wire carries back — deliberately not a frame. The socket I/O
//! and the validating engine live with the binary.

use vstd::prelude::*;

use crate::codec::{spec_decode_frame, decode_frame, CodecError};
use crate::message::{spec_decode_trace_proof, decode_trace_proof, TraceProof};

verus! {

/// The byte that reports a verification outcome: 1 when both sub-checks
/// passed, 0 otherwise.
pub open spec fn spec_verification_outcome(evm_verified: bool, state_verified: bool) -> u8 {
    if evm_verified && state_verified {
        1
    } else {
        0
    }
}

/// Decodes the checker's next request off the front of a stream: exactly one
/// frame is consumed and its payload must spell a trace/proof pair.
/// `Truncated` exactly when the stream is still short of the frame's
/// declared end, `Malformed` exactly when the complete payload spells no
/// such pair.
pub fn decode_trace_proof_frame(stream: &Vec<u8>) -> (r: Result<(TraceProof, Vec<u8>), CodecError>)
    ensures
        match r {
            Ok(pr) => spec_decode_frame(stream@) matches Some(fp) && spec_decode_trace_proof(fp.0)
                == Some(pr.0@) && fp.1 == pr.1@,
            Err(e) => match spec_decode_frame(stream@) {
                None => e == CodecError::Truncated,
                Some(fp) => spec_decode_trace_proof(fp.0) is None && e == CodecError::Malformed,
            },
        },
{
    let (payload, rest) = match decode_frame(stream) {
        Ok(pr) => pr,
        Err(e) => {
            return Err(e);
        },
    };
    match decode_trace_proof(&payload) {
        Ok(t) => Ok((t, rest)),
        Err(e) => Err(e),
    }
}

/// The one-byte response to a verification request: 1 exactly when both the
/// evm check and the state check passed, 0 as soon as either failed.
pub fn verification_outcome(evm_verified: bool, state_verified: bool) -> (r: u8)
    ensures
        r == spec_verification_outcome(evm_verified, state_verified),
        r == 1 <==> evm_verified && state_verified,
        r == 0 || r == 1,
{
    if evm_verified && state_verified {
        1
    } else {
        0
    }
}

} // verus!
