//! Brute-force recovery of a plaintext from a known hash digest.
//!
//! The engine enumerates all candidate strings over a fixed 62-symbol
//! alphabet (digits, lowercase letters, uppercase letters) in canonical
//! odometer order, hashes each one, and compares the digest against a
//! target, honouring a cooperative cancellation flag at a fixed cadence.

pub mod alphabet;
pub mod clock;
pub mod digest;
pub mod engine;
pub mod enumerator;
