//! Threshold Schnorr signatures over secp256k1: distributed key generation and
//! distributed signing as round-based state machines, with the party-local
//! cryptography they are built from and a plain n-of-n multi-signature.

pub mod curve;
pub mod error;
pub mod hashing;
pub mod keygen;
pub mod laws;
pub mod multisig;
pub mod party_i;
pub mod sign;
pub mod store;
pub mod vss;
