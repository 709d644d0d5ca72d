//! What can go wrong in the ledger's operations.

use vstd::prelude::*;

verus! {

/// The failures that the ledger reports.
#[derive(Clone, Copy, Debug, PartialEq, Eq, Structural)]
pub enum LedgerError {
    /// The text given as a peer's address is not a URL.
    MalformedPeerUri,
    /// The URL given as a peer's address names no host.
    InvalidPeerAddress,
    /// The chain holds no block to mine on.
    EmptyChain,
    /// Every proof that the machine can count to was tried, and none was
    /// accepted.
    ProofNotFound,
    /// A peer did not answer.
    PeerUnreachable,
    /// A peer answered with something that is not a chain.
    PeerResponseInvalid,
}

} // verus!
