//! Blocks and their identity hash.

use crate::clock::utc_now;
use crate::digest::{hex_digest, sha256_hex};
use crate::json::{json_string, push_json_string, push_text};
use crate::text::{decimal, push_decimal};
use crate::transaction::{
    transactions_json, transactions_view, write_transactions_json, Transaction, TransactionView,
};
use vstd::prelude::*;
use vstd::utf8::encode_utf8;

verus! {

/// One entry of the ledger: a batch of transactions, the proof that was mined
/// for it, and the hash of the block before it.
#[derive(Debug)]
pub struct Block {
    pub index: usize,
    pub timestamp: String,
    pub transactions: Vec<Transaction>,
    pub proof: usize,
    pub previous_hash: String,
}

/// The mathematical value of a [`Block`].
pub struct BlockView {
    pub index: usize,
    pub timestamp: Seq<char>,
    pub transactions: Seq<TransactionView>,
    pub proof: usize,
    pub previous_hash: Seq<char>,
}

impl View for Block {
    type V = BlockView;

    open spec fn view(&self) -> BlockView {
        BlockView {
            index: self.index,
            timestamp: self.timestamp@,
            transactions: transactions_view(self.transactions@),
            proof: self.proof,
            previous_hash: self.previous_hash@,
        }
    }
}

impl Clone for Block {
    fn clone(&self) -> (copy: Self)
        ensures
            copy@ == self@,
    {
        let transactions = self.transactions.clone();
        assert(transactions@ =~= self.transactions@);
        Block {
            index: self.index,
            timestamp: self.timestamp.clone(),
            transactions,
            proof: self.proof,
            previous_hash: self.previous_hash.clone(),
        }
    }
}

/// The views of a sequence of blocks, in the same order.
pub open spec fn blocks_view(blocks: Seq<Block>) -> Seq<BlockView> {
    blocks.map_values(|b: Block| b@)
}

/// The canonical serialization of a block: one JSON object without white
/// space, with the fields `index`, `timestamp`, `transactions`, `proof` and
/// `previous_hash` in this order.
pub open spec fn block_json(b: BlockView) -> Seq<u8> {
    encode_utf8("{\"index\":"@) + decimal(b.index as nat) + encode_utf8(",\"timestamp\":"@)
        + json_string(b.timestamp) + encode_utf8(",\"transactions\":["@) + transactions_json(
        b.transactions,
    ) + encode_utf8("],\"proof\":"@) + decimal(b.proof as nat) + encode_utf8(
        ",\"previous_hash\":"@,
    ) + json_string(b.previous_hash) + encode_utf8("}"@)
}

/// The identity hash of a block: the SHA-256 digest of its canonical
/// serialization, in lower-case hexadecimal notation.
pub open spec fn block_hash(b: BlockView) -> Seq<char> {
    hex_digest(block_json(b))
}

impl Block {
    /// Creates a block that carries the current time as its timestamp.
    pub fn new(
        index: usize,
        transactions: Vec<Transaction>,
        proof: usize,
        previous_hash: &str,
    ) -> (b: Block)
        ensures
            b@ == (BlockView {
                index,
                timestamp: b@.timestamp,
                transactions: transactions_view(transactions@),
                proof,
                previous_hash: previous_hash@,
            }),
    {
        Block::with_timestamp(index, utc_now(), transactions, proof, previous_hash)
    }

    /// Creates a block from all five fields.
    pub fn with_timestamp(
        index: usize,
        timestamp: String,
        transactions: Vec<Transaction>,
        proof: usize,
        previous_hash: &str,
    ) -> (b: Block)
        ensures
            b@ == (BlockView {
                index,
                timestamp: timestamp@,
                transactions: transactions_view(transactions@),
                proof,
                previous_hash: previous_hash@,
            }),
    {
        Block { index, timestamp, transactions, proof, previous_hash: previous_hash.to_owned() }
    }

    /// Writes the canonical serialization of this block.
    pub fn canonical_json(&self) -> (bytes: Vec<u8>)
        ensures
            bytes@ == block_json(self@),
    {
        let mut out: Vec<u8> = Vec::new();
        push_text(&mut out, "{\"index\":");
        push_decimal(&mut out, self.index);
        push_text(&mut out, ",\"timestamp\":");
        push_json_string(&mut out, self.timestamp.as_str());
        push_text(&mut out, ",\"transactions\":[");
        write_transactions_json(&self.transactions, &mut out);
        push_text(&mut out, "],\"proof\":");
        push_decimal(&mut out, self.proof);
        push_text(&mut out, ",\"previous_hash\":");
        push_json_string(&mut out, self.previous_hash.as_str());
        push_text(&mut out, "}");
        assert(out@ =~= block_json(self@));
        out
    }

    /// Computes the identity hash of this block from its current field
    /// values: 64 lower-case hexadecimal digits.
    pub fn hash(&self) -> (digest: String)
        ensures
            digest@ == block_hash(self@),
            digest@.len() == 64,
    {
        let bytes = self.canonical_json();
        sha256_hex(bytes.as_slice())
    }
}

} // verus!
