//! Byte-exact building blocks for a token standard: a fixed-layout codec for
//! token-account and token-mint records, instruction payload packing, and a
//! binary Merkle tree builder over 32-byte leaf hashes.

pub mod account;
pub mod codec;
pub mod instruction;
pub mod key;
pub mod merkle;
pub mod mint;
