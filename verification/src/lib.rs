//! The user-space producer half of a kernel submission channel: a
//! single-producer ring buffer of fixed-size request descriptors, with a
//! typed builder layer that constructs well-formed descriptors.

pub mod opcode;
pub mod squeue;
pub mod sys;
