//! Core data model and binary transport for a 2D line-of-sight engine.
//!
//! The library holds the exact part of the engine: the wall/door/sense data
//! model, the rules deciding which walls take part in a sweep and how the
//! vision wedge clips them, and the binary envelope that persists
//! computation requests and replay test vectors.  Floating-point
//! coordinates travel through the envelope as their IEEE-754 bit patterns,
//! so every byte of the format is specified and proved; the trigonometry of
//! the sweep itself lives with the host, which feeds its decisions through
//! the order-exact functions here.

pub mod codec;
pub mod envelope;
pub mod types;
pub mod util;
pub mod wedge;
