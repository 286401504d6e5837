use ipc_zk::codec::CodecError;
use ipc_zk::message::{
    decode_block_trace, decode_trace_proof, decode_zk_proof, encode_block_trace,
    encode_trace_proof, encode_zk_proof, BlockTrace, TraceProof, ZkProof,
};

#[test]
fn block_trace_round_trip() {
    let t = BlockTrace { id: 42, block_result: b"opaque execution trace".to_vec() };
    let bytes = encode_block_trace(&t);
    let back = decode_block_trace(&bytes).unwrap();
    assert_eq!(back.id, 42);
    assert_eq!(back.block_result, t.block_result);
}

#[test]
fn block_trace_exact_bytes() {
    let t = BlockTrace { id: 1, block_result: vec![0xFFu8] };
    let bytes = encode_block_trace(&t);
    assert_eq!(bytes, vec![0u8, 0, 0, 0, 0, 0, 0, 1, 0, 0, 0, 1, 0xFF]);
}

#[test]
fn zk_proof_round_trip() {
    let p = ZkProof {
        id: u64::MAX,
        evm_transcript: b"evm artifact".to_vec(),
        state_transcript: Vec::new(),
    };
    let bytes = encode_zk_proof(&p);
    let back = decode_zk_proof(&bytes).unwrap();
    assert_eq!(back.id, u64::MAX);
    assert_eq!(back.evm_transcript, p.evm_transcript);
    assert_eq!(back.state_transcript, p.state_transcript);
}

#[test]
fn trace_proof_round_trip() {
    let t = TraceProof {
        trace: b"the block trace".to_vec(),
        proof: ZkProof {
            id: 7,
            evm_transcript: b"aa".to_vec(),
            state_transcript: b"bb".to_vec(),
        },
    };
    let bytes = encode_trace_proof(&t);
    let back = decode_trace_proof(&bytes).unwrap();
    assert_eq!(back.trace, t.trace);
    assert_eq!(back.proof.id, 7);
    assert_eq!(back.proof.evm_transcript, b"aa".to_vec());
    assert_eq!(back.proof.state_transcript, b"bb".to_vec());
}

#[test]
fn short_payload_is_malformed() {
    let bytes = vec![0u8, 0, 0];
    assert_eq!(decode_block_trace(&bytes).err(), Some(CodecError::Malformed));
    assert_eq!(decode_zk_proof(&bytes).err(), Some(CodecError::Malformed));
    assert_eq!(decode_trace_proof(&bytes).err(), Some(CodecError::Malformed));
}

#[test]
fn field_length_past_end_is_malformed() {
    // id, then a field declaring 200 bytes with only 1 present
    let mut bytes = vec![0u8, 0, 0, 0, 0, 0, 0, 9];
    bytes.extend([0u8, 0, 0, 200, 0xAA]);
    assert_eq!(decode_block_trace(&bytes).err(), Some(CodecError::Malformed));
}

#[test]
fn trailing_bytes_are_malformed() {
    let t = BlockTrace { id: 3, block_result: vec![1u8, 2, 3] };
    let mut bytes = encode_block_trace(&t);
    bytes.push(0);
    assert_eq!(decode_block_trace(&bytes).err(), Some(CodecError::Malformed));

    let p = ZkProof { id: 3, evm_transcript: vec![1u8], state_transcript: vec![2u8] };
    let mut pb = encode_zk_proof(&p);
    pb.push(0);
    assert_eq!(decode_zk_proof(&pb).err(), Some(CodecError::Malformed));
}
