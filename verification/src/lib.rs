//! Core of an N-body gravity simulator that streams its state to clients and
//! accepts live mutation commands.
//!
//! The verified library owns the simulation's data model and every decision
//! that is not floating-point arithmetic or I/O: the body sequence and its
//! mutation protocol, the two-phase step/removal bookkeeping, the textual wire
//! codec for bodies, metadata and command envelopes, the server-sent-event
//! framing, the snapshot throttle, and the worker-pool configuration check.
//!
//! Scalar physical quantities are IEEE-754 double-precision values. The
//! verifier has no theory of floating point, so the library stores each scalar
//! as its raw 64-bit pattern (`u64`); the embedding converts with
//! `f64::to_bits` / `f64::from_bits` and performs the numerical integration
//! itself, handing the per-body outcomes back to the verified state machine.

pub mod body;
pub mod commands;
pub mod codec;
pub mod digits;
pub mod errors;
pub mod events;
pub mod http;
pub mod meta;
pub mod pool;
pub mod sim;
pub mod sse;
pub mod wire;
