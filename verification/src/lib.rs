//! Differential-testing harness for a tiny stateful memory protocol.
//!
//! The crate holds the reference model of the protocol's semantics, the
//! command domain with its random generator, the wire codec, and the
//! differential comparison policy. A thin front end owns the transport
//! connection and drives the loop.

pub mod codec;
pub mod generator;
pub mod runner;
pub mod simulator;
