use vstd::prelude::*;

verus! {

/// Fixed 64-bit Diffie-Hellman modulus; compiled in, identical on both peers.
pub const DH_PRIME: u64 = 0xD87FA3E291B4C7F3;

/// Diffie-Hellman generator, a small public constant.
pub const DH_GENERATOR: u64 = 2;

/// Multiplier of the keystream's linear-congruential generator.
pub const LCG_MULTIPLIER: u64 = 1103515245;

/// Increment of the keystream's linear-congruential generator.
pub const LCG_INCREMENT: u64 = 12345;

/// Modulus of the keystream's linear-congruential generator (2^32).
pub const LCG_MODULUS: u64 = 0x1_0000_0000;

} // verus!
