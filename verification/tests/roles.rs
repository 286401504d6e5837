use ipc_zk::checker::{decode_trace_proof_frame, verification_outcome};
use ipc_zk::codec::encode_frame;
use ipc_zk::message::{encode_block_trace, encode_trace_proof, BlockTrace, TraceProof, ZkProof};
use ipc_zk::prover::{create_zk_proof_bytes, decode_block_trace_frame, make_zk_proof};

// One worker exchange without the socket: the framed request goes in, the
// framed response comes out.
fn worker_exchange(stream: &Vec<u8>) -> (Vec<u8>, Vec<u8>) {
    let (job, rest) = decode_block_trace_frame(stream).unwrap();
    // a deterministic stand-in for the proving engine
    let evm = b"aa".to_vec();
    let state = b"bb".to_vec();
    let proof = make_zk_proof(&job, evm, state);
    (create_zk_proof_bytes(&proof), rest)
}

#[test]
fn worker_end_to_end() {
    let job = BlockTrace { id: 77, block_result: b"a fixed job payload".to_vec() };
    let stream = encode_frame(&encode_block_trace(&job));

    let (response, rest) = worker_exchange(&stream);
    assert!(rest.is_empty());

    // the response is one correctly framed proof envelope echoing the id
    let (payload, after) = ipc_zk::codec::decode_frame(&response).unwrap();
    assert!(after.is_empty());
    let proof = ipc_zk::message::decode_zk_proof(&payload).unwrap();
    assert_eq!(proof.id, 77);
    assert_eq!(proof.evm_transcript, b"aa".to_vec());
    assert_eq!(proof.state_transcript, b"bb".to_vec());
}

#[test]
fn worker_preserves_request_order() {
    let ids = [31u64, 5, 88, 2];
    let mut stream = Vec::new();
    for &id in &ids {
        let job = BlockTrace { id, block_result: vec![id as u8] };
        stream.extend(encode_frame(&encode_block_trace(&job)));
    }

    let mut responses = Vec::new();
    let mut remaining = stream;
    while !remaining.is_empty() {
        let (response, rest) = worker_exchange(&remaining);
        responses.push(response);
        remaining = rest;
    }

    assert_eq!(responses.len(), ids.len());
    for (i, response) in responses.iter().enumerate() {
        let (payload, _) = ipc_zk::codec::decode_frame(response).unwrap();
        let proof = ipc_zk::message::decode_zk_proof(&payload).unwrap();
        assert_eq!(proof.id, ids[i]);
    }
}

#[test]
fn checker_end_to_end() {
    let request = TraceProof {
        trace: b"the block trace".to_vec(),
        proof: ZkProof {
            id: 9,
            evm_transcript: b"aa".to_vec(),
            state_transcript: b"bb".to_vec(),
        },
    };
    let stream = encode_frame(&encode_trace_proof(&request));
    let (decoded, rest) = decode_trace_proof_frame(&stream).unwrap();
    assert!(rest.is_empty());
    assert_eq!(decoded.proof.id, 9);

    // both sub-validations pass: exactly one byte, value 1
    assert_eq!(verification_outcome(true, true), 1);
    // either fails: exactly one byte, value 0
    assert_eq!(verification_outcome(false, true), 0);
    assert_eq!(verification_outcome(true, false), 0);
    assert_eq!(verification_outcome(false, false), 0);
}

#[test]
fn truncated_request_is_reported_not_answered() {
    let job = BlockTrace { id: 1, block_result: b"payload".to_vec() };
    let frame = encode_frame(&encode_block_trace(&job));
    let short: Vec<u8> = frame[..frame.len() - 1].to_vec();
    assert!(decode_block_trace_frame(&short).is_err());
    assert!(decode_trace_proof_frame(&short).is_err());
}
