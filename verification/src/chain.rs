//! Validation of a candidate chain.

use crate::block::{block_hash, blocks_view, Block, BlockView};
use crate::ledger::Blockchain;
use crate::pow::proof_accepted;
use vstd::prelude::*;

verus! {

/// `block` may follow `prev`: it names the hash of `prev`, and its proof is
/// accepted after the proof and the hash of `prev`.
pub open spec fn follows(prev: BlockView, block: BlockView) -> bool {
    block.previous_hash == block_hash(prev) && proof_accepted(
        prev.proof,
        block.proof,
        block_hash(prev),
    )
}

/// A chain is valid when it is not empty and every block but the first may
/// follow the block before it.
pub open spec fn chain_is_valid(chain: Seq<BlockView>) -> bool {
    chain.len() > 0 && forall|i: int|
        1 <= i < chain.len() ==> follows(chain[i - 1], #[trigger] chain[i])
}

/// Every block carries its position in the chain, counted from 1.
pub open spec fn chain_is_numbered(chain: Seq<BlockView>) -> bool {
    forall|i: int| 0 <= i < chain.len() ==> (#[trigger] chain[i]).index == i + 1
}

impl Blockchain {
    /// Checks a candidate chain: `false` for an empty chain and as soon as one
    /// block may not follow the block before it.
    pub fn valid_chain(chain: &Vec<Block>) -> (ok: bool)
        ensures
            ok == chain_is_valid(blocks_view(chain@)),
    {
        if chain.len() == 0 {
            return false;
        }
        let ghost blocks = blocks_view(chain@);
        let mut prev_hash = chain[0].hash();
        let mut i: usize = 1;
        while i < chain.len()
            invariant
                1 <= i <= chain.len(),
                blocks == blocks_view(chain@),
                prev_hash@ == block_hash(blocks[i - 1]),
                forall|j: int| 1 <= j < i ==> follows(blocks[j - 1], #[trigger] blocks[j]),
            decreases chain.len() - i,
        {
            let block = &chain[i];
            assert(block@ == blocks[i as int]);
            assert(chain@[i - 1]@ == blocks[i - 1]);
            if !(block.previous_hash == prev_hash) {
                assert(!follows(blocks[i - 1], blocks[i as int]));
                return false;
            }
            if !Blockchain::valid_proof(chain[i - 1].proof, block.proof, prev_hash.as_str()) {
                assert(!follows(blocks[i - 1], blocks[i as int]));
                return false;
            }
            prev_hash = block.hash();
            i += 1;
        }
        true
    }
}

/// A block with another `previous_hash` in place of the block at a position
/// after the first makes a valid chain invalid.
pub proof fn lemma_forged_previous_hash(chain: Seq<BlockView>, i: int, forged: Seq<char>)
    requires
        chain_is_valid(chain),
        1 <= i < chain.len(),
        forged != chain[i].previous_hash,
    ensures
        !chain_is_valid(chain.update(i, BlockView { previous_hash: forged, ..chain[i] })),
{
    let forged_chain = chain.update(i, BlockView { previous_hash: forged, ..chain[i] });
    assert(follows(chain[i - 1], chain[i]));
    assert(forged_chain[i - 1] == chain[i - 1]);
    assert(!follows(forged_chain[i - 1], forged_chain[i]));
}

/// A block with a proof that is not accepted after the block before it, in
/// place of the block at a position after the first, makes a chain invalid.
pub proof fn lemma_forged_proof(chain: Seq<BlockView>, i: int, forged: usize)
    requires
        1 <= i < chain.len(),
        !proof_accepted(chain[i - 1].proof, forged, block_hash(chain[i - 1])),
    ensures
        !chain_is_valid(chain.update(i, BlockView { proof: forged, ..chain[i] })),
{
    let forged_chain = chain.update(i, BlockView { proof: forged, ..chain[i] });
    assert(forged_chain[i - 1] == chain[i - 1]);
    assert(!follows(forged_chain[i - 1], forged_chain[i]));
}

/// A block with another hash in place of a block that has a successor makes a
/// valid chain invalid, whichever of its fields was changed.
pub proof fn lemma_forged_block(chain: Seq<BlockView>, i: int, forged: BlockView)
    requires
        chain_is_valid(chain),
        0 <= i < chain.len() - 1,
        block_hash(forged) != block_hash(chain[i]),
    ensures
        !chain_is_valid(chain.update(i, forged)),
{
    let forged_chain = chain.update(i, forged);
    assert(follows(chain[i], chain[i + 1]));
    assert(forged_chain[i + 1] == chain[i + 1]);
    assert(!follows(forged_chain[i + 1 - 1], forged_chain[i + 1]));
}

} // verus!
