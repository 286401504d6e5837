//! The structured envelopes the wire carries and their byte encodings.
//!
//! A frame's payload spells one envelope: a block trace to prove (the
//! worker's request), a proof (the worker's response and one half of the
//! checker's request), or a trace/proof pair (the checker's request). The
//! encoding is self-describing: a 64-bit big-endian id, and each opaque byte
//! field behind its own 4-byte big-endian length. Decoding accepts exactly
//! the encodings and nothing else.

use vstd::prelude::*;

use crate::codec::{
    spec_be32,
    spec_u32_be,
    lemma_u32_be_round_trip,
    push_u32_be,
    push_bytes,
    read_u32_be,
    CodecError,
};

verus! {

/// A job for the worker: a caller-assigned id and the opaque execution
/// trace to prove against.
pub struct BlockTrace {
    pub id: u64,
    pub block_result: Vec<u8>,
}

/// The worker's answer: the job's id echoed back, with the two opaque proof
/// artifacts produced from its trace.
pub struct ZkProof {
    pub id: u64,
    pub evm_transcript: Vec<u8>,
    pub state_transcript: Vec<u8>,
}

/// The checker's request: an opaque trace paired with the proof claimed for
/// it, submitted for independent validation.
pub struct TraceProof {
    pub trace: Vec<u8>,
    pub proof: ZkProof,
}

/// The mathematical value of a `BlockTrace`.
#[verifier::ext_equal]
pub struct BlockTraceV {
    pub id: u64,
    pub block_result: Seq<u8>,
}

/// The mathematical value of a `ZkProof`.
#[verifier::ext_equal]
pub struct ZkProofV {
    pub id: u64,
    pub evm_transcript: Seq<u8>,
    pub state_transcript: Seq<u8>,
}

/// The mathematical value of a `TraceProof`.
#[verifier::ext_equal]
pub struct TraceProofV {
    pub trace: Seq<u8>,
    pub proof: ZkProofV,
}

impl View for BlockTrace {
    type V = BlockTraceV;

    open spec fn view(&self) -> BlockTraceV {
        BlockTraceV { id: self.id, block_result: self.block_result@ }
    }
}

impl View for ZkProof {
    type V = ZkProofV;

    open spec fn view(&self) -> ZkProofV {
        ZkProofV {
            id: self.id,
            evm_transcript: self.evm_transcript@,
            state_transcript: self.state_transcript@,
        }
    }
}

impl View for TraceProof {
    type V = TraceProofV;

    open spec fn view(&self) -> TraceProofV {
        TraceProofV { trace: self.trace@, proof: self.proof@ }
    }
}

/// The 8-byte big-endian spelling of a 64-bit id.
pub open spec fn spec_u64_be(n: u64) -> Seq<u8> {
    seq![
        ((n >> 56) & 0xff) as u8,
        ((n >> 48) & 0xff) as u8,
        ((n >> 40) & 0xff) as u8,
        ((n >> 32) & 0xff) as u8,
        ((n >> 24) & 0xff) as u8,
        ((n >> 16) & 0xff) as u8,
        ((n >> 8) & 0xff) as u8,
        (n & 0xff) as u8,
    ]
}

/// The value an 8-byte big-endian spelling denotes.
pub open spec fn spec_be64(b: Seq<u8>) -> u64
    recommends
        b.len() == 8,
{
    ((b[0] as u64) << 56) | ((b[1] as u64) << 48) | ((b[2] as u64) << 40) | ((b[3] as u64) << 32)
        | ((b[4] as u64) << 24) | ((b[5] as u64) << 16) | ((b[6] as u64) << 8) | (b[7] as u64)
}

/// Spelling an id and reading it back returns the same id.
pub proof fn lemma_u64_be_round_trip(n: u64)
    ensures
        spec_be64(spec_u64_be(n)) == n,
{
    assert((((((n >> 56) & 0xff) as u8) as u64) << 56) | (((((n >> 48) & 0xff) as u8) as u64)
        << 48) | (((((n >> 40) & 0xff) as u8) as u64) << 40) | (((((n >> 32) & 0xff) as u8) as u64)
        << 32) | (((((n >> 24) & 0xff) as u8) as u64) << 24) | (((((n >> 16) & 0xff) as u8) as u64)
        << 16) | (((((n >> 8) & 0xff) as u8) as u64) << 8) | (((n & 0xff) as u8) as u64) == n)
        by (bit_vector);
}

/// An opaque byte field on the wire: its length, big-endian, then its bytes.
pub open spec fn spec_field(b: Seq<u8>) -> Seq<u8>
    recommends
        b.len() <= u32::MAX,
{
    spec_u32_be(b.len() as u32) + b
}

/// Reads the field that starts at offset `at`: its bytes and the offset just
/// past it, or nothing when the buffer ends inside the field.
pub open spec fn spec_take_field(s: Seq<u8>, at: int) -> Option<(Seq<u8>, int)>
    recommends
        0 <= at <= s.len(),
{
    if s.len() - at >= 4 {
        let l = spec_be32(s.subrange(at, at + 4)) as int;
        if s.len() - at - 4 >= l {
            Some((s.subrange(at + 4, at + 4 + l), at + 4 + l))
        } else {
            None
        }
    } else {
        None
    }
}

/// The encoding of a job: its id, then its trace as one field.
pub open spec fn spec_encode_block_trace(t: BlockTraceV) -> Seq<u8>
    recommends
        t.block_result.len() <= u32::MAX,
{
    spec_u64_be(t.id) + spec_field(t.block_result)
}

/// The encoding of a proof: its id, then its two artifacts as fields.
pub open spec fn spec_encode_zk_proof(p: ZkProofV) -> Seq<u8>
    recommends
        p.evm_transcript.len() <= u32::MAX,
        p.state_transcript.len() <= u32::MAX,
{
    spec_u64_be(p.id) + spec_field(p.evm_transcript) + spec_field(p.state_transcript)
}

/// The encoding of a verification request: the trace as a field, then the
/// proof's encoding.
pub open spec fn spec_encode_trace_proof(t: TraceProofV) -> Seq<u8>
    recommends
        t.trace.len() <= u32::MAX,
        t.proof.evm_transcript.len() <= u32::MAX,
        t.proof.state_transcript.len() <= u32::MAX,
{
    spec_field(t.trace) + spec_encode_zk_proof(t.proof)
}

/// The job a payload spells, if it spells one exactly.
pub open spec fn spec_decode_block_trace(s: Seq<u8>) -> Option<BlockTraceV> {
    if s.len() >= 8 {
        match spec_take_field(s, 8) {
            Some((b, end)) => if end == s.len() {
                Some(BlockTraceV { id: spec_be64(s.subrange(0, 8)), block_result: b })
            } else {
                None
            },
            None => None,
        }
    } else {
        None
    }
}

/// The proof a payload spells, if it spells one exactly.
pub open spec fn spec_decode_zk_proof(s: Seq<u8>) -> Option<ZkProofV> {
    if s.len() >= 8 {
        match spec_take_field(s, 8) {
            Some((ev, mid)) => match spec_take_field(s, mid) {
                Some((st, end)) => if end == s.len() {
                    Some(
                        ZkProofV {
                            id: spec_be64(s.subrange(0, 8)),
                            evm_transcript: ev,
                            state_transcript: st,
                        },
                    )
                } else {
                    None
                },
                None => None,
            },
            None => None,
        }
    } else {
        None
    }
}

/// The verification request a payload spells, if it spells one exactly.
pub open spec fn spec_decode_trace_proof(s: Seq<u8>) -> Option<TraceProofV> {
    match spec_take_field(s, 0) {
        Some((trace, mid)) => match spec_decode_zk_proof(s.skip(mid)) {
            Some(p) => Some(TraceProofV { trace, proof: p }),
            None => None,
        },
        None => None,
    }
}

/// A field read back from where it was written yields the bytes that were
/// written and ends exactly where they end.
pub proof fn lemma_take_field_of_field(s: Seq<u8>, at: int, b: Seq<u8>)
    requires
        b.len() <= u32::MAX,
        0 <= at,
        at + 4 + b.len() <= s.len(),
        s.subrange(at, at + 4 + b.len()) == spec_field(b),
    ensures
        spec_take_field(s, at) == Some((b, at + 4 + b.len())),
{
    assert forall|i: int| 0 <= i < 4 implies #[trigger] s.subrange(at, at + 4)[i] == spec_u32_be(
        b.len() as u32,
    )[i] by {
        assert(s.subrange(at, at + 4 + b.len() as int)[i] == spec_field(b)[i]);
    }
    assert(s.subrange(at, at + 4) =~= spec_u32_be(b.len() as u32));
    lemma_u32_be_round_trip(b.len() as u32);
    assert forall|i: int| 0 <= i < b.len() implies s.subrange(at + 4, at + 4 + b.len() as int)[i]
        == b[i] by {
        assert(s.subrange(at, at + 4 + b.len() as int)[4 + i] == spec_field(b)[4 + i]);
        assert(spec_field(b)[4 + i] == b[i]);
    }
    assert(s.subrange(at + 4, at + 4 + b.len() as int) =~= b);
}

/// Envelope round-trip for jobs: decoding an encoded job returns it.
pub proof fn lemma_block_trace_round_trip(t: BlockTraceV)
    requires
        t.block_result.len() <= u32::MAX,
    ensures
        spec_decode_block_trace(spec_encode_block_trace(t)) == Some(t),
{
    let s = spec_encode_block_trace(t);
    assert(s.subrange(0, 8) =~= spec_u64_be(t.id));
    lemma_u64_be_round_trip(t.id);
    assert(s.subrange(8, s.len() as int) =~= spec_field(t.block_result));
    lemma_take_field_of_field(s, 8, t.block_result);
    assert(spec_decode_block_trace(s) =~= Some(t));
}

/// Envelope round-trip for proofs: decoding an encoded proof returns it.
pub proof fn lemma_zk_proof_round_trip(p: ZkProofV)
    requires
        p.evm_transcript.len() <= u32::MAX,
        p.state_transcript.len() <= u32::MAX,
    ensures
        spec_decode_zk_proof(spec_encode_zk_proof(p)) == Some(p),
{
    let s = spec_encode_zk_proof(p);
    let mid = 12 + p.evm_transcript.len() as int;
    assert(s.subrange(0, 8) =~= spec_u64_be(p.id));
    lemma_u64_be_round_trip(p.id);
    assert(s.subrange(8, mid) =~= spec_field(p.evm_transcript));
    lemma_take_field_of_field(s, 8, p.evm_transcript);
    assert(s.subrange(mid, s.len() as int) =~= spec_field(p.state_transcript));
    lemma_take_field_of_field(s, mid, p.state_transcript);
    assert(spec_decode_zk_proof(s) =~= Some(p));
}

/// Envelope round-trip for verification requests: decoding an encoded
/// request returns it.
pub proof fn lemma_trace_proof_round_trip(t: TraceProofV)
    requires
        t.trace.len() <= u32::MAX,
        t.proof.evm_transcript.len() <= u32::MAX,
        t.proof.state_transcript.len() <= u32::MAX,
    ensures
        spec_decode_trace_proof(spec_encode_trace_proof(t)) == Some(t),
{
    let s = spec_encode_trace_proof(t);
    let mid = 4 + t.trace.len() as int;
    assert(s.subrange(0, mid) =~= spec_field(t.trace));
    lemma_take_field_of_field(s, 0, t.trace);
    assert(s.skip(mid) =~= spec_encode_zk_proof(t.proof));
    lemma_zk_proof_round_trip(t.proof);
    assert(spec_decode_trace_proof(s) =~= Some(t));
}

/// Appends the 8-byte big-endian spelling of `n`.
pub fn push_u64_be(out: &mut Vec<u8>, n: u64)
    ensures
        final(out)@ == old(out)@ + spec_u64_be(n),
{
    proof {
        assert((n >> 56) & 0xff < 256 && (n >> 48) & 0xff < 256 && (n >> 40) & 0xff < 256 && (n
            >> 32) & 0xff < 256 && (n >> 24) & 0xff < 256 && (n >> 16) & 0xff < 256 && (n >> 8)
            & 0xff < 256 && n & 0xff < 256) by (bit_vector);
    }
    out.push(((n >> 56) & 0xff) as u8);
    out.push(((n >> 48) & 0xff) as u8);
    out.push(((n >> 40) & 0xff) as u8);
    out.push(((n >> 32) & 0xff) as u8);
    out.push(((n >> 24) & 0xff) as u8);
    out.push(((n >> 16) & 0xff) as u8);
    out.push(((n >> 8) & 0xff) as u8);
    out.push((n & 0xff) as u8);
    assert(out@ =~= old(out)@ + spec_u64_be(n));
}

/// Reads the 64-bit value that `s[0 .. 8]` spells big-endian.
fn read_u64_be(s: &Vec<u8>) -> (r: u64)
    requires
        s@.len() >= 8,
    ensures
        r == spec_be64(s@.subrange(0, 8)),
{
    let n: usize = s.len();
    assert(8 <= n);
    let r = ((s[0] as u64) << 56) | ((s[1] as u64) << 48) | ((s[2] as u64) << 40) | ((s[3] as u64)
        << 32) | ((s[4] as u64) << 24) | ((s[5] as u64) << 16) | ((s[6] as u64) << 8) | (s[7]
        as u64);
    proof {
        let b = s@.subrange(0, 8);
        assert(b[0] == s@[0] && b[1] == s@[1] && b[2] == s@[2] && b[3] == s@[3] && b[4] == s@[4]
            && b[5] == s@[5] && b[6] == s@[6] && b[7] == s@[7]);
    }
    r
}

/// Appends one field: the length of `bytes`, big-endian, then its bytes.
pub fn push_field(out: &mut Vec<u8>, bytes: &Vec<u8>)
    requires
        bytes@.len() <= u32::MAX,
    ensures
        final(out)@ == old(out)@ + spec_field(bytes@),
{
    push_u32_be(out, bytes.len() as u32);
    push_bytes(out, bytes);
    assert(out@ =~= old(out)@ + spec_field(bytes@));
}

/// Copies the field that starts at offset `at` out of the payload, returning
/// its bytes and the offset just past it; fails as `Malformed` exactly when
/// the payload ends inside the field or its length prefix.
fn read_field(s: &Vec<u8>, at: usize) -> (r: Result<(Vec<u8>, usize), CodecError>)
    requires
        at <= s@.len(),
    ensures
        match r {
            Ok(p) => spec_take_field(s@, at as int) == Some((p.0@, p.1 as int)) && p.1
                <= s@.len(),
            Err(e) => spec_take_field(s@, at as int) is None && e == CodecError::Malformed,
        },
{
    let n: usize = s.len();
    if n - at < 4 {
        return Err(CodecError::Malformed);
    }
    let l = read_u32_be(s, at);
    let l_us = l as usize;
    if n - at - 4 < l_us {
        return Err(CodecError::Malformed);
    }
    let mut bytes: Vec<u8> = Vec::new();
    let mut i: usize = 0;
    while i < l_us
        invariant
            i <= l_us,
            at + 4 + l_us <= n,
            n == s@.len(),
            bytes@ == s@.subrange(at + 4, at + 4 + i as int),
        decreases l_us - i,
    {
        bytes.push(s[at + 4 + i]);
        i = i + 1;
        assert(bytes@ =~= s@.subrange(at + 4, at + 4 + i as int));
    }
    Ok((bytes, at + 4 + l_us))
}

/// Serializes a job envelope.
pub fn encode_block_trace(t: &BlockTrace) -> (r: Vec<u8>)
    requires
        t.block_result@.len() <= u32::MAX,
    ensures
        r@ == spec_encode_block_trace(t@),
{
    let mut r: Vec<u8> = Vec::new();
    push_u64_be(&mut r, t.id);
    push_field(&mut r, &t.block_result);
    assert(r@ =~= spec_encode_block_trace(t@));
    r
}

/// Serializes a proof envelope.
pub fn encode_zk_proof(p: &ZkProof) -> (r: Vec<u8>)
    requires
        p.evm_transcript@.len() <= u32::MAX,
        p.state_transcript@.len() <= u32::MAX,
    ensures
        r@ == spec_encode_zk_proof(p@),
{
    let mut r: Vec<u8> = Vec::new();
    push_u64_be(&mut r, p.id);
    push_field(&mut r, &p.evm_transcript);
    push_field(&mut r, &p.state_transcript);
    assert(r@ =~= spec_encode_zk_proof(p@));
    r
}

/// Serializes a verification request.
pub fn encode_trace_proof(t: &TraceProof) -> (r: Vec<u8>)
    requires
        t.trace@.len() <= u32::MAX,
        t.proof.evm_transcript@.len() <= u32::MAX,
        t.proof.state_transcript@.len() <= u32::MAX,
    ensures
        r@ == spec_encode_trace_proof(t@),
{
    let mut r: Vec<u8> = Vec::new();
    push_field(&mut r, &t.trace);
    let proof_bytes = encode_zk_proof(&t.proof);
    push_bytes(&mut r, &proof_bytes);
    assert(r@ =~= spec_encode_trace_proof(t@));
    r
}

/// Deserializes a job envelope, accepting exactly the payloads that spell
/// one: `Ok` if and only if the payload is some job's encoding.
pub fn decode_block_trace(payload: &Vec<u8>) -> (r: Result<BlockTrace, CodecError>)
    ensures
        match r {
            Ok(t) => spec_decode_block_trace(payload@) == Some(t@),
            Err(e) => spec_decode_block_trace(payload@) is None && e == CodecError::Malformed,
        },
{
    if payload.len() < 8 {
        return Err(CodecError::Malformed);
    }
    let id = read_u64_be(payload);
    let (block_result, end) = match read_field(payload, 8) {
        Ok(p) => p,
        Err(e) => {
            return Err(e);
        },
    };
    if end != payload.len() {
        return Err(CodecError::Malformed);
    }
    let t = BlockTrace { id, block_result };
    proof {
        assert(spec_decode_block_trace(payload@) =~= Some(t@));
    }
    Ok(t)
}

/// Deserializes a proof envelope, accepting exactly the payloads that spell
/// one: `Ok` if and only if the payload is some proof's encoding.
pub fn decode_zk_proof(payload: &Vec<u8>) -> (r: Result<ZkProof, CodecError>)
    ensures
        match r {
            Ok(p) => spec_decode_zk_proof(payload@) == Some(p@),
            Err(e) => spec_decode_zk_proof(payload@) is None && e == CodecError::Malformed,
        },
{
    if payload.len() < 8 {
        return Err(CodecError::Malformed);
    }
    let id = read_u64_be(payload);
    let (evm_transcript, mid) = match read_field(payload, 8) {
        Ok(p) => p,
        Err(e) => {
            return Err(e);
        },
    };
    let (state_transcript, end) = match read_field(payload, mid) {
        Ok(p) => p,
        Err(e) => {
            return Err(e);
        },
    };
    if end != payload.len() {
        return Err(CodecError::Malformed);
    }
    let p = ZkProof { id, evm_transcript, state_transcript };
    proof {
        assert(spec_decode_zk_proof(payload@) =~= Some(p@));
    }
    Ok(p)
}

/// Deserializes a verification request, accepting exactly the payloads that
/// spell one: `Ok` if and only if the payload is some request's encoding.
pub fn decode_trace_proof(payload: &Vec<u8>) -> (r: Result<TraceProof, CodecError>)
    ensures
        match r {
            Ok(t) => spec_decode_trace_proof(payload@) == Some(t@),
            Err(e) => spec_decode_trace_proof(payload@) is None && e == CodecError::Malformed,
        },
{
    let (trace, mid) = match read_field(payload, 0) {
        Ok(p) => p,
        Err(e) => {
            return Err(e);
        },
    };
    let n: usize = payload.len();
    let mut tail: Vec<u8> = Vec::new();
    let mut j: usize = mid;
    while j < n
        invariant
            mid <= j <= n,
            n == payload@.len(),
            tail@ == payload@.subrange(mid as int, j as int),
        decreases n - j,
    {
        tail.push(payload[j]);
        j = j + 1;
        assert(tail@ =~= payload@.subrange(mid as int, j as int));
    }
    assert(tail@ =~= payload@.skip(mid as int));
    let proof_envelope = match decode_zk_proof(&tail) {
        Ok(p) => p,
        Err(e) => {
            return Err(e);
        },
    };
    let t = TraceProof { trace, proof: proof_envelope };
    proof {
        assert(spec_decode_trace_proof(payload@) =~= Some(t@));
    }
    Ok(t)
}

} // verus!
