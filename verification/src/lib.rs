//! A verified toy secure channel: a Diffie-Hellman-style key agreement over a
//! fixed 64-bit modulus, a linear-congruential keystream cipher, and a
//! length-framed envelope format for an alternating two-party chat session.
//!
//! The protocol is deliberately not cryptographically secure (a single fixed
//! 64-bit modulus, an LCG keystream, no authentication); what is proved here
//! is behavioral: both peers derive the same shared secret, the cipher
//! round-trips, the keystream advances in lockstep with the bytes moved in
//! each direction, and the framing is exact.
//!
//! Beside the channel the crate carries two small verified utility modules:
//! hex and offset text helpers, and a hex-valued grid with a certifying
//! Dijkstra path search.

pub mod cli;
pub mod handshake;
pub mod hexgrid;
pub mod hexutil;
pub mod keystream;
pub mod modexp;
pub mod params;
pub mod session;
pub mod wire;
