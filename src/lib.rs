//! An append-only, tamper-evident ledger: blocks linked by SHA-256 digests and
//! sealed by a proof-of-work nonce.
pub mod block;
pub mod chain;
pub mod tampering;

pub use block::{
    as_bytes, bytes_to_str, hash, leading_zero_bits, matches_difficulty, zero_hash, Block, Data,
    Nonce, DIFFICULTY, MAX_PAYLOAD_LEN,
};
pub use chain::{
    find_nonce, init, make_block, push, verify, Blockchain, Chain, MiningError,
    VerificationError,
};
