//! An append-only hash chain: blocks that commit to their content through a
//! SHA-512 digest, optionally mined to a proof-of-work target, and a chain that
//! links each block to its predecessor and can check the whole sequence.
pub mod block;
pub mod blockchain;
pub mod primitives;
