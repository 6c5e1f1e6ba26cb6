//! Reception pipeline of a long-range radio telemetry node.
//!
//! Bytes arriving from the radio module are gathered into a bounded buffer,
//! a complete `+RCV=` frame is taken apart and validated, the telemetry
//! packet it carries is decoded, the result is published to a single-slot
//! shared state, and an acknowledgment frame is built for the sender.

pub mod ack;
pub mod ascii;
pub mod assembler;
pub mod checksum;
pub mod error;
pub mod frame;
pub mod frame_proofs;
pub mod packet;
pub mod reception;
