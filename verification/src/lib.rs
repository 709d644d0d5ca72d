//! A single-process ledger node: an append-only chain of blocks, a pool of
//! pending transactions, proof-of-work mining, chain validation and the
//! longest-valid-chain rule for reconciling with peers.

pub mod block;
pub mod chain;
pub mod clock;
pub mod consensus;
pub mod digest;
pub mod error;
pub mod json;
pub mod ledger;
pub mod mining;
pub mod peers;
pub mod pow;
pub mod text;
pub mod transaction;
