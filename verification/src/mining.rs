//! What mining does to a chain.

use crate::block::{block_hash, BlockView};
use crate::chain::{chain_is_numbered, chain_is_valid, follows};
use crate::error::LedgerError;
use crate::ledger::is_genesis;
use crate::pow::{least_proof, no_proof};
use crate::transaction::Transaction;
use vstd::prelude::*;

verus! {

/// `block` is what mining appends to `chain`: it takes the next index, names
/// the hash of the last block, and carries the smallest proof that is
/// accepted after that block.
pub open spec fn mined_on(chain: Seq<BlockView>, block: BlockView) -> bool {
    chain.len() > 0 && block.index == chain.len() + 1 && block.previous_hash == block_hash(
        chain.last(),
    ) && least_proof(chain.last().proof, block.proof, block_hash(chain.last()))
}

/// `chain` is a genesis block followed by `mines` blocks, each mined on the
/// chain before it.
pub open spec fn mined_from_genesis(chain: Seq<BlockView>, mines: nat) -> bool
    decreases mines,
{
    if mines == 0 {
        chain.len() == 1 && is_genesis(chain[0])
    } else {
        chain.len() > 0 && mined_on(chain.drop_last(), chain.last()) && mined_from_genesis(
            chain.drop_last(),
            (mines - 1) as nat,
        )
    }
}

/// After any number of mines from genesis the chain holds one block more
/// than was mined, every block carries its position counted from 1, and the
/// chain is valid.
pub proof fn lemma_mined_chain(chain: Seq<BlockView>, mines: nat)
    requires
        mined_from_genesis(chain, mines),
    ensures
        chain.len() == mines + 1,
        chain_is_numbered(chain),
        chain_is_valid(chain),
    decreases mines,
{
    if mines > 0 {
        let before = chain.drop_last();
        lemma_mined_chain(before, (mines - 1) as nat);
        assert forall|i: int| 0 <= i < chain.len() implies (#[trigger] chain[i]).index == i
            + 1 by {
            if i < before.len() {
                assert(before[i] == chain[i]);
            }
        }
        assert forall|i: int| 1 <= i < chain.len() implies follows(
            chain[i - 1],
            #[trigger] chain[i],
        ) by {
            if i < before.len() {
                assert(before[i] == chain[i]);
                assert(before[i - 1] == chain[i - 1]);
            } else {
                assert(before.last() == chain[i - 1]);
            }
        }
    }
}

/// One more mine adds one to the number of blocks mined from genesis.
pub proof fn lemma_mine_extends(chain: Seq<BlockView>, mines: nat, block: BlockView)
    requires
        mined_from_genesis(chain, mines),
        mined_on(chain, block),
    ensures
        mined_from_genesis(chain.push(block), mines + 1),
{
    assert(chain.push(block).drop_last() =~= chain);
}

/// Mining is impossible on a chain without a block, and on one after whose
/// last block no proof that the machine can count to is accepted.
pub open spec fn cannot_mine(chain: Seq<BlockView>) -> bool {
    chain.len() == 0 || no_proof(chain.last().proof, block_hash(chain.last()))
}

/// The failure that mining on `chain` reports where it is impossible.
pub open spec fn mining_failure(chain: Seq<BlockView>) -> LedgerError {
    if chain.len() == 0 {
        LedgerError::EmptyChain
    } else {
        LedgerError::ProofNotFound
    }
}

/// What a successful mine hands back.
#[derive(Debug)]
pub struct Mined {
    /// The index of the new block.
    pub index: usize,
    /// The transactions that the new block took from the pool.
    pub transactions: Vec<Transaction>,
    /// The proof that was found for it.
    pub proof: usize,
    /// The hash of the block before it.
    pub previous_hash: String,
}

} // verus!
