//! The mining puzzle: which proofs are accepted, and the search for one.

use crate::block::{block_hash, Block};
use crate::digest::{hex_digest, sha256_bytes};
use crate::json::push_text;
use crate::ledger::Blockchain;
use crate::text::{decimal, hex, hex_char_at, hex_digit, push_decimal};
use vstd::prelude::*;
use vstd::utf8::encode_utf8;

verus! {

/// The number of leading zero digits that the puzzle asks for.
pub const DIFFICULTY: usize = 5;

/// The text that is hashed for a candidate proof: the decimal notations of the
/// last proof and of the candidate, then the last block's hash, with nothing
/// between them.
pub open spec fn guess(last_proof: usize, proof: usize, last_hash: Seq<char>) -> Seq<u8> {
    decimal(last_proof as nat) + decimal(proof as nat) + encode_utf8(last_hash)
}

/// A hexadecimal digest solves the puzzle when its first five digits are `0`.
pub open spec fn solves_puzzle(digest_hex: Seq<char>) -> bool {
    digest_hex.len() >= DIFFICULTY && forall|i: int| 0 <= i < DIFFICULTY ==> digest_hex[i] == '0'
}

/// The difficulty rule: `proof` is accepted after `last_proof` and `last_hash`
/// when the hexadecimal digest of their guess text solves the puzzle.
pub open spec fn proof_accepted(last_proof: usize, proof: usize, last_hash: Seq<char>) -> bool {
    solves_puzzle(hex_digest(guess(last_proof, proof, last_hash)))
}

/// `proof` is the smallest accepted proof after `last_proof` and `last_hash`.
pub open spec fn least_proof(last_proof: usize, proof: usize, last_hash: Seq<char>) -> bool {
    proof_accepted(last_proof, proof, last_hash) && forall|q: usize|
        q < proof ==> !proof_accepted(last_proof, q, last_hash)
}

/// No proof that the machine can count to is accepted after `last_proof` and
/// `last_hash`.
pub open spec fn no_proof(last_proof: usize, last_hash: Seq<char>) -> bool {
    forall|q: usize| !proof_accepted(last_proof, q, last_hash)
}

proof fn lemma_hex_digit_zero(n: u8)
    requires
        n < 16,
    ensures
        hex_digit(n) == '0' <==> n == 0,
{
}

/// Tells from the bytes of a digest whether its hexadecimal notation solves
/// the puzzle.
pub fn meets_difficulty(digest: &[u8]) -> (ok: bool)
    ensures
        ok == solves_puzzle(hex(digest@)),
{
    if digest.len() < 3 {
        assert(hex(digest@).len() < 5);
        return false;
    }
    let ok = digest[0] == 0 && digest[1] == 0 && digest[2] < 16;
    proof {
        let text = hex(digest@);
        assert(text.len() >= 6);
        lemma_hex_digit_zero(digest@[0] / 16);
        lemma_hex_digit_zero(digest@[0] % 16);
        lemma_hex_digit_zero(digest@[1] / 16);
        lemma_hex_digit_zero(digest@[1] % 16);
        lemma_hex_digit_zero(digest@[2] / 16);
        assert(text[0] == hex_char_at(digest@, 0));
        assert(text[1] == hex_char_at(digest@, 1));
        assert(text[2] == hex_char_at(digest@, 2));
        assert(text[3] == hex_char_at(digest@, 3));
        assert(text[4] == hex_char_at(digest@, 4));
        assert(digest@[0] == 0 <==> (digest@[0] / 16 == 0 && digest@[0] % 16 == 0));
        assert(digest@[1] == 0 <==> (digest@[1] / 16 == 0 && digest@[1] % 16 == 0));
        assert(digest@[2] < 16 <==> digest@[2] / 16 == 0);
    }
    ok
}

impl Blockchain {
    /// Decides whether `proof` is accepted after `last_proof` and `last_hash`.
    pub fn valid_proof(last_proof: usize, proof: usize, last_hash: &str) -> (ok: bool)
        ensures
            ok == proof_accepted(last_proof, proof, last_hash@),
    {
        let mut text: Vec<u8> = Vec::new();
        push_decimal(&mut text, last_proof);
        push_decimal(&mut text, proof);
        push_text(&mut text, last_hash);
        assert(text@ =~= guess(last_proof, proof, last_hash@));
        let digest = sha256_bytes(text.as_slice());
        meets_difficulty(digest.as_slice())
    }

    /// Searches the proofs from 0 upwards and returns the first that is
    /// accepted after `last_block`; `None` when the search has reached the
    /// largest number of the machine without finding one.
    pub fn proof_of_work(&self, last_block: &Block) -> (found: Option<usize>)
        ensures
            match found {
                Some(proof) => least_proof(last_block@.proof, proof, block_hash(last_block@)),
                None => no_proof(last_block@.proof, block_hash(last_block@)),
            },
    {
        let last_proof = last_block.proof;
        let last_hash = last_block.hash();
        let mut proof: usize = 0;
        loop
            invariant
                last_proof == last_block@.proof,
                last_hash@ == block_hash(last_block@),
                forall|q: usize| q < proof ==> !proof_accepted(last_proof, q, last_hash@),
            decreases usize::MAX - proof,
        {
            if Blockchain::valid_proof(last_proof, proof, last_hash.as_str()) {
                return Some(proof);
            }
            if proof == usize::MAX {
                return None;
            }
            proof += 1;
        }
    }
}

} // verus!
