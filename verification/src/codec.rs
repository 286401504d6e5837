//! The framing codec: a frame is a 4-byte big-endian length prefix followed
//! by exactly that many payload bytes. Encoding and decoding are exact
//! inverses, and a stream that ends before the declared length is satisfied
//! is rejected, never shortened.

use vstd::prelude::*;

verus! {

/// Why a decode failed: the stream ended before the frame was complete, or
/// the bytes do not spell a well-formed envelope.
#[derive(Clone, Copy, Debug, PartialEq, Eq, Structural)]
pub enum CodecError {
    Truncated,
    Malformed,
}

/// The 4-byte big-endian spelling of a 32-bit length.
pub open spec fn spec_u32_be(n: u32) -> Seq<u8> {
    seq![
        ((n >> 24) & 0xff) as u8,
        ((n >> 16) & 0xff) as u8,
        ((n >> 8) & 0xff) as u8,
        (n & 0xff) as u8,
    ]
}

/// The value a 4-byte big-endian prefix denotes.
pub open spec fn spec_be32(b: Seq<u8>) -> u32
    recommends
        b.len() == 4,
{
    ((b[0] as u32) << 24) | ((b[1] as u32) << 16) | ((b[2] as u32) << 8) | (b[3] as u32)
}

/// Spelling a length and reading it back returns the same length.
pub proof fn lemma_u32_be_round_trip(n: u32)
    ensures
        spec_be32(spec_u32_be(n)) == n,
{
    assert((((((n >> 24) & 0xff) as u8) as u32) << 24) | (((((n >> 16) & 0xff) as u8) as u32)
        << 16) | (((((n >> 8) & 0xff) as u8) as u32) << 8) | (((n & 0xff) as u8) as u32) == n)
        by (bit_vector);
}

/// A payload wrapped in a frame: its length, big-endian, then its bytes.
pub open spec fn spec_frame(payload: Seq<u8>) -> Seq<u8>
    recommends
        payload.len() <= u32::MAX,
{
    spec_u32_be(payload.len() as u32) + payload
}

/// The payload length a stream's first four bytes declare.
pub open spec fn spec_frame_len(stream: Seq<u8>) -> int
    recommends
        stream.len() >= 4,
{
    spec_be32(stream.subrange(0, 4)) as int
}

/// What decoding the front of a stream yields: the first frame's payload and
/// the untouched remainder, or nothing while the stream is still short of
/// `4 + L` bytes.
pub open spec fn spec_decode_frame(stream: Seq<u8>) -> Option<(Seq<u8>, Seq<u8>)> {
    if stream.len() >= 4 && stream.len() - 4 >= spec_frame_len(stream) {
        Some(
            (
                stream.subrange(4, 4 + spec_frame_len(stream)),
                stream.skip(4 + spec_frame_len(stream)),
            ),
        )
    } else {
        None
    }
}

/// Appends the 4-byte big-endian spelling of `n`.
pub fn push_u32_be(out: &mut Vec<u8>, n: u32)
    ensures
        final(out)@ == old(out)@ + spec_u32_be(n),
{
    proof {
        assert((n >> 24) & 0xff < 256 && (n >> 16) & 0xff < 256 && (n >> 8) & 0xff < 256 && n
            & 0xff < 256) by (bit_vector);
    }
    out.push(((n >> 24) & 0xff) as u8);
    out.push(((n >> 16) & 0xff) as u8);
    out.push(((n >> 8) & 0xff) as u8);
    out.push((n & 0xff) as u8);
    assert(out@ =~= old(out)@ + spec_u32_be(n));
}

/// Appends a copy of `bytes`.
pub fn push_bytes(out: &mut Vec<u8>, bytes: &Vec<u8>)
    ensures
        final(out)@ == old(out)@ + bytes@,
{
    let mut i: usize = 0;
    while i < bytes.len()
        invariant
            i <= bytes@.len(),
            out@ == old(out)@ + bytes@.subrange(0, i as int),
        decreases bytes@.len() - i,
    {
        out.push(bytes[i]);
        i = i + 1;
        assert(out@ =~= old(out)@ + bytes@.subrange(0, i as int));
    }
    assert(out@ =~= old(out)@ + bytes@);
}

/// Reads the 32-bit value that `stream[at .. at + 4]` spells big-endian.
pub fn read_u32_be(stream: &Vec<u8>, at: usize) -> (r: u32)
    requires
        at + 4 <= stream@.len(),
    ensures
        r == spec_be32(stream@.subrange(at as int, at as int + 4)),
{
    let n: usize = stream.len();
    assert(at + 4 <= n);
    let r = ((stream[at] as u32) << 24) | ((stream[at + 1] as u32) << 16) | ((stream[at + 2]
        as u32) << 8) | (stream[at + 3] as u32);
    proof {
        let b = stream@.subrange(at as int, at as int + 4);
        assert(b[0] == stream@[at as int] && b[1] == stream@[at as int + 1] && b[2] == stream@[
            at as int + 2] && b[3] == stream@[at as int + 3]);
    }
    r
}

/// Wraps a payload in a frame: its length as a 4-byte big-endian prefix,
/// then the payload bytes, emitted as one buffer.
pub fn encode_frame(payload: &Vec<u8>) -> (r: Vec<u8>)
    requires
        payload@.len() <= u32::MAX,
    ensures
        r@ == spec_frame(payload@),
        r@.len() == 4 + payload@.len(),
{
    let mut r: Vec<u8> = Vec::new();
    push_u32_be(&mut r, payload.len() as u32);
    push_bytes(&mut r, payload);
    assert(r@ =~= spec_frame(payload@));
    r
}

/// Takes one frame off the front of a stream. Succeeds exactly when the
/// stream holds at least `4 + L` bytes, `L` being what the first four bytes
/// declare; it then consumes exactly `4 + L` bytes and returns the payload
/// together with the untouched remainder. A shorter stream is `Truncated`:
/// no partial payload is ever returned.
pub fn decode_frame(stream: &Vec<u8>) -> (r: Result<(Vec<u8>, Vec<u8>), CodecError>)
    ensures
        match r {
            Ok(pr) => spec_decode_frame(stream@) == Some((pr.0@, pr.1@)),
            Err(e) => spec_decode_frame(stream@) is None && e == CodecError::Truncated,
        },
{
    if stream.len() < 4 {
        return Err(CodecError::Truncated);
    }
    let len = read_u32_be(stream, 0);
    let len_us = len as usize;
    if stream.len() - 4 < len_us {
        return Err(CodecError::Truncated);
    }
    let n: usize = stream.len();
    let mut payload: Vec<u8> = Vec::new();
    let mut i: usize = 0;
    while i < len_us
        invariant
            i <= len_us,
            4 + len_us <= n,
            n == stream@.len(),
            payload@ == stream@.subrange(4, 4 + i as int),
        decreases len_us - i,
    {
        payload.push(stream[4 + i]);
        i = i + 1;
        assert(payload@ =~= stream@.subrange(4, 4 + i as int));
    }
    let mut rest: Vec<u8> = Vec::new();
    let mut j: usize = 4 + len_us;
    while j < stream.len()
        invariant
            4 + len_us <= j <= stream@.len(),
            rest@ == stream@.subrange(4 + len_us as int, j as int),
        decreases stream@.len() - j,
    {
        rest.push(stream[j]);
        j = j + 1;
        assert(rest@ =~= stream@.subrange(4 + len_us as int, j as int));
    }
    assert(rest@ =~= stream@.skip(4 + spec_frame_len(stream@)));
    Ok((payload, rest))
}

/// Framing round-trip: a frame followed by any later bytes decodes back to
/// exactly the payload that was framed, leaving the later bytes untouched.
pub proof fn lemma_frame_round_trip(payload: Seq<u8>, rest: Seq<u8>)
    requires
        payload.len() <= u32::MAX,
    ensures
        spec_decode_frame(spec_frame(payload) + rest) == Some((payload, rest)),
{
    let s = spec_frame(payload) + rest;
    assert(s.subrange(0, 4) =~= spec_u32_be(payload.len() as u32));
    lemma_u32_be_round_trip(payload.len() as u32);
    assert(spec_frame_len(s) == payload.len());
    assert(s.subrange(4, 4 + payload.len() as int) =~= payload);
    assert(s.skip(4 + payload.len() as int) =~= rest);
}

/// Length-prefix exactness: when at least `4 + L` bytes are present, decoding
/// consumes exactly `4 + L` of them, and the stream is precisely what was
/// consumed followed by what was left for the next decode.
pub proof fn lemma_length_prefix_exactness(stream: Seq<u8>)
    requires
        stream.len() >= 4,
        stream.len() >= 4 + spec_frame_len(stream),
    ensures
        spec_decode_frame(stream) == Some(
            (
                stream.subrange(4, 4 + spec_frame_len(stream)),
                stream.skip(4 + spec_frame_len(stream)),
            ),
        ),
        stream == stream.take(4 + spec_frame_len(stream)) + stream.skip(
            4 + spec_frame_len(stream),
        ),
{
    assert(stream =~= stream.take(4 + spec_frame_len(stream)) + stream.skip(
        4 + spec_frame_len(stream),
    ));
}

/// Truncated-frame failure: any strict prefix of a frame fails to decode;
/// a partially delivered frame never yields a payload.
pub proof fn lemma_truncated_frame(payload: Seq<u8>, n: int)
    requires
        payload.len() <= u32::MAX,
        0 <= n < spec_frame(payload).len(),
    ensures
        spec_decode_frame(spec_frame(payload).take(n)) is None,
{
    let t = spec_frame(payload).take(n);
    if n >= 4 {
        assert(t.subrange(0, 4) =~= spec_u32_be(payload.len() as u32));
        lemma_u32_be_round_trip(payload.len() as u32);
        assert(spec_frame_len(t) == payload.len());
        assert(t.len() - 4 < spec_frame_len(t));
    }
}

} // verus!
