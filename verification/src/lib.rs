//! Ingestion bridge for periodic scalar sensor measurements.
//!
//! A remote sensor sends fixed-size binary frames over TCP: four bytes
//! holding one big-endian IEEE-754 single-precision reading. This crate
//! holds the verified core of the bridge that receives those frames:
//! the frame codec, the per-connection read-loop policy, the time-ordered
//! measurement store, and the small pure helpers around them. The host
//! process supplies the sockets, the clock-driven loop and the durable
//! database, and hands this library plain values.
//!
//! Floating-point readings are carried as their IEEE-754 bit patterns
//! (`u32` on the wire, `u64` once widened for storage); the bridge never
//! inspects a reading numerically, so no precision is lost anywhere in
//! the pipeline.

pub mod bridge;
pub mod codec;
pub mod errors;
pub mod handler;
pub mod simulator;
pub mod store;
pub mod timestamp;
