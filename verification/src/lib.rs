//! Core of a Proof-of-AI (PoAI) consensus engine.
//!
//! The crate provides the deterministic building blocks of the protocol:
//! the canonical byte codec for every wire type, the 20/20/50/10
//! transaction selector with its fixed-point efficiency score, the ranked
//! vote tally with BFT quorum and equivocation detection, the round state
//! machine, the delegated key hierarchy (master key and scope-limited
//! validator key), per-wallet color-marker accounting, and the
//! nonce-checked account state.
//!
//! Every function carries a contract; the calls into the cryptographic
//! backends (SHA-256, SHA3-256, HMAC, Ed25519) sit behind small trusted
//! wrappers in `crypto`.

pub mod accounts;
pub mod block;
pub mod codec;
pub mod color;
pub mod consensus;
pub mod crypto;
pub mod engine;
pub mod hexstr;
pub mod keys;
pub mod node;
pub mod proposal;
pub mod selector;
pub mod transaction;
pub mod vote;
