//! The worker role's per-request logic: decode one framed job, assemble the
//! result envelope that echoes the job's id, and frame it for the wire. The
//! blocking socket I/O around these steps, and the proving engine that turns
//! a trace into the two artifacts, live with the binary.

use vstd::prelude::*;

use crate::codec::{spec_decode_frame, spec_frame, decode_frame, encode_frame, CodecError};
use crate::message::{
    spec_decode_block_trace,
    spec_encode_zk_proof,
    decode_block_trace,
    encode_zk_proof,
    BlockTrace,
    BlockTraceV,
    ZkProof,
    ZkProofV,
};

verus! {

/// The response owed to one job: its id echoed unchanged, carrying the two
/// artifacts the proving engine produced from its trace.
pub open spec fn spec_worker_response(job: BlockTraceV, evm: Seq<u8>, state: Seq<u8>) -> ZkProofV {
    ZkProofV { id: job.id, evm_transcript: evm, state_transcript: state }
}

/// Decodes the worker's next request off the front of a stream: exactly one
/// frame is consumed and its payload must spell a job. `Truncated` exactly
/// when the stream is still short of the frame's declared end, `Malformed`
/// exactly when the complete payload spells no job.
pub fn decode_block_trace_frame(stream: &Vec<u8>) -> (r: Result<(BlockTrace, Vec<u8>), CodecError>)
    ensures
        match r {
            Ok(pr) => spec_decode_frame(stream@) matches Some(fp) && spec_decode_block_trace(fp.0)
                == Some(pr.0@) && fp.1 == pr.1@,
            Err(e) => match spec_decode_frame(stream@) {
                None => e == CodecError::Truncated,
                Some(fp) => spec_decode_block_trace(fp.0) is None && e == CodecError::Malformed,
            },
        },
{
    let (payload, rest) = match decode_frame(stream) {
        Ok(pr) => pr,
        Err(e) => {
            return Err(e);
        },
    };
    match decode_block_trace(&payload) {
        Ok(t) => Ok((t, rest)),
        Err(e) => Err(e),
    }
}

/// Assembles the result envelope for one job, echoing the job's id next to
/// the two artifacts produced for it.
pub fn make_zk_proof(job: &BlockTrace, evm_proof: Vec<u8>, state_proof: Vec<u8>) -> (r: ZkProof)
    ensures
        r@ == spec_worker_response(job@, evm_proof@, state_proof@),
{
    ZkProof { id: job.id, evm_transcript: evm_proof, state_transcript: state_proof }
}

/// Serializes a result envelope and wraps it in a frame, ready to be written
/// back as one buffer.
pub fn create_zk_proof_bytes(zk_proof: &ZkProof) -> (r: Vec<u8>)
    requires
        16 + zk_proof.evm_transcript@.len() + zk_proof.state_transcript@.len() <= u32::MAX,
    ensures
        r@ == spec_frame(spec_encode_zk_proof(zk_proof@)),
{
    let body = encode_zk_proof(zk_proof);
    assert(body@.len() == 16 + zk_proof.evm_transcript@.len()
        + zk_proof.state_transcript@.len());
    encode_frame(&body)
}

/// The responses owed to a run of requests handled in order on one
/// connection, pairing each job with the artifacts produced for it.
pub open spec fn spec_worker_responses(
    jobs: Seq<BlockTraceV>,
    evms: Seq<Seq<u8>>,
    states: Seq<Seq<u8>>,
) -> Seq<ZkProofV> {
    Seq::new(jobs.len(), |i: int| spec_worker_response(jobs[i], evms[i], states[i]))
}

/// Order preservation: for any run of requests answered in order, there is
/// one response per request, and the i-th response echoes the i-th
/// request's id.
pub proof fn lemma_order_preservation(
    jobs: Seq<BlockTraceV>,
    evms: Seq<Seq<u8>>,
    states: Seq<Seq<u8>>,
)
    requires
        evms.len() == jobs.len(),
        states.len() == jobs.len(),
    ensures
        spec_worker_responses(jobs, evms, states).len() == jobs.len(),
        forall|i: int|
            0 <= i < jobs.len() ==> #[trigger] spec_worker_responses(jobs, evms, states)[i].id
                == jobs[i].id,
{
}

} // verus!
