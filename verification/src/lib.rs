//! Length-prefixed IPC framing for a prover/verifier worker pair.
//!
//! The wire protocol carries structured envelopes (a block trace to prove, a
//! proof to check back) as frames: a 4-byte big-endian length prefix followed
//! by exactly that many payload bytes. This crate holds the framing codec,
//! the envelope encodings and the per-request decision logic, all verified;
//! the socket lifecycle and the proving engine live with the binaries.

pub mod codec;
pub mod message;
pub mod checker;
pub mod prover;
