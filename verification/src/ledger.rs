//! The ledger: the chain, the pool of pending transactions and the registry
//! of peers, with the operations that change and read them.

use crate::block::{block_hash, blocks_view, Block, BlockView};
use crate::clock::utc_now;
use crate::consensus::{
    adopts, after_report, and_before, chain_url, claims_no_more, lemma_resolution_keeps_a_block,
    lemma_resolution_never_shortens, peer_chain_url, reports_view, resolution, PeerReport,
};
use crate::digest::{hex_digest, sha256_hex};
use crate::error::LedgerError;
use crate::mining::{cannot_mine, mined_on, mining_failure, Mined};
use crate::peers::{
    address_of, after_registration, after_registrations, distinct, find_peer, lemma_with_peer,
    parse_url, registration_outcome, with_peer, UrlParts,
};
use crate::transaction::{transactions_view, Transaction, TransactionView};
use vstd::prelude::*;
use vstd::utf8::encode_utf8;

verus! {

/// The state of one node.
#[derive(Debug)]
pub struct Blockchain {
    current_transactions: Vec<Transaction>,
    chain: Vec<Block>,
    nodes: Vec<String>,
}

/// The mathematical value of a [`Blockchain`].
pub struct BlockchainView {
    /// The transactions that wait for the next block, oldest first.
    pub pending: Seq<TransactionView>,
    /// The blocks, the genesis block first.
    pub chain: Seq<BlockView>,
    /// The addresses of the registered peers, in the order of registration.
    pub peers: Seq<Seq<char>>,
}

/// The views of a sequence of texts, in the same order.
pub open spec fn texts_view(texts: Seq<String>) -> Seq<Seq<char>> {
    texts.map_values(|text: String| text@)
}

impl View for Blockchain {
    type V = BlockchainView;

    closed spec fn view(&self) -> BlockchainView {
        BlockchainView {
            pending: transactions_view(self.current_transactions@),
            chain: blocks_view(self.chain@),
            peers: texts_view(self.nodes@),
        }
    }
}

impl BlockchainView {
    /// What the operations keep of a ledger: there is a genesis block, and
    /// no peer is registered twice.
    pub open spec fn wf(self) -> bool {
        self.chain.len() > 0 && self.peers.no_duplicates()
    }
}

/// The `previous_hash` of every genesis block: the hexadecimal SHA-256
/// digest of the text `1`.
pub open spec fn genesis_previous_hash() -> Seq<char> {
    hex_digest(encode_utf8("1"@))
}

/// A genesis block has index 1, proof 1, the fixed `previous_hash` and no
/// transactions.
pub open spec fn is_genesis(block: BlockView) -> bool {
    block.index == 1 && block.proof == 1 && block.previous_hash == genesis_previous_hash()
        && block.transactions.len() == 0
}

/// The block that is appended in `state` at `timestamp` with `proof` and
/// `previous_hash`: it takes the next index and all pending transactions.
pub open spec fn next_block(
    state: BlockchainView,
    timestamp: Seq<char>,
    proof: usize,
    previous_hash: Seq<char>,
) -> BlockView {
    BlockView {
        index: (state.chain.len() + 1) as usize,
        timestamp,
        transactions: state.pending,
        proof,
        previous_hash,
    }
}

/// The chain and its length, as a peer reports them.
#[derive(Debug)]
pub struct FullChain {
    pub chain: Vec<Block>,
    pub length: usize,
}

/// The addresses of the registered peers.
#[derive(Debug)]
pub struct NodeList {
    pub nodes: Vec<String>,
}

impl Blockchain {
    /// Creates a ledger whose genesis block carries the current time.
    pub fn new() -> (ledger: Blockchain)
        ensures
            ledger@.wf(),
            ledger@.chain.len() == 1,
            is_genesis(ledger@.chain[0]),
            ledger@.pending.len() == 0,
            ledger@.peers.len() == 0,
    {
        Blockchain::with_genesis_timestamp(utc_now())
    }

    /// Creates a ledger whose genesis block carries `timestamp`.
    pub fn with_genesis_timestamp(timestamp: String) -> (ledger: Blockchain)
        ensures
            ledger@.wf(),
            ledger@.chain.len() == 1,
            is_genesis(ledger@.chain[0]),
            ledger@.chain[0].timestamp == timestamp@,
            ledger@.pending.len() == 0,
            ledger@.peers.len() == 0,
    {
        let mut ledger = Blockchain {
            current_transactions: Vec::new(),
            chain: Vec::new(),
            nodes: Vec::new(),
        };
        let previous_hash = sha256_hex("1".as_bytes());
        ledger.append_block(timestamp, 1, previous_hash.as_str());
        ledger
    }

    /// Puts a ledger together from a pool, a chain and the addresses of
    /// peers. Pool and chain are taken as they are, an empty chain too; of
    /// equal addresses the first is kept.
    pub fn from_parts(
        current_transactions: Vec<Transaction>,
        chain: Vec<Block>,
        nodes: Vec<String>,
    ) -> (ledger: Blockchain)
        ensures
            ledger@.pending == transactions_view(current_transactions@),
            ledger@.chain == blocks_view(chain@),
            ledger@.peers == distinct(texts_view(nodes@)),
            ledger@.peers.no_duplicates(),
            ledger@.wf() <==> chain@.len() > 0,
    {
        let ghost addresses = texts_view(nodes@);
        let mut peers: Vec<String> = Vec::new();
        let mut i: usize = 0;
        while i < nodes.len()
            invariant
                i <= nodes.len(),
                addresses == texts_view(nodes@),
                texts_view(peers@) == distinct(addresses.take(i as int)),
                texts_view(peers@).no_duplicates(),
            decreases nodes.len() - i,
        {
            let ghost before = texts_view(peers@);
            proof {
                assert(addresses.take(i + 1).drop_last() =~= addresses.take(i as int));
                assert(addresses.take(i + 1).last() == nodes@[i as int]@);
                lemma_with_peer(before, nodes@[i as int]@);
            }
            match find_peer(&peers, &nodes[i]) {
                Some(at) => {
                    assert(before[at as int] == nodes@[i as int]@);
                },
                None => {
                    assert forall|j: int| 0 <= j < before.len() implies before[j]
                        != nodes@[i as int]@ by {
                        assert(before[j] == peers@[j]@);
                    }
                    peers.push(nodes[i].clone());
                    assert(texts_view(peers@) =~= before.push(nodes@[i as int]@));
                },
            }
            i += 1;
        }
        assert(addresses.take(i as int) =~= addresses);
        Blockchain { current_transactions, chain, nodes: peers }
    }

    /// Appends a block that carries the current time as its timestamp, and
    /// returns it. It takes the next index and all pending transactions, and
    /// the pool is empty afterwards. Neither `proof` nor `previous_hash` is
    /// checked.
    pub fn new_block(&mut self, proof: usize, previous_hash: &str) -> (block: &Block)
        requires
            old(self)@.chain.len() < usize::MAX,
        ensures
            final(self)@.chain == old(self)@.chain.push(block@),
            block@ == next_block(old(self)@, block@.timestamp, proof, previous_hash@),
            final(self)@.pending.len() == 0,
            final(self)@.peers == old(self)@.peers,
    {
        self.append_block(utc_now(), proof, previous_hash)
    }

    /// Appends a block that carries `timestamp`, and returns it. It takes the
    /// next index and all pending transactions, and the pool is empty
    /// afterwards. Neither `proof` nor `previous_hash` is checked.
    pub fn append_block(&mut self, timestamp: String, proof: usize, previous_hash: &str) -> (block:
        &Block)
        requires
            old(self)@.chain.len() < usize::MAX,
        ensures
            final(self)@.chain == old(self)@.chain.push(block@),
            block@ == next_block(old(self)@, timestamp@, proof, previous_hash@),
            final(self)@.pending.len() == 0,
            final(self)@.peers == old(self)@.peers,
    {
        let mut transactions: Vec<Transaction> = Vec::new();
        std::mem::swap(&mut transactions, &mut self.current_transactions);
        let block = Block::with_timestamp(
            self.chain.len() + 1,
            timestamp,
            transactions,
            proof,
            previous_hash,
        );
        self.chain.push(block);
        assert(self@.chain =~= old(self)@.chain.push(block@));
        assert(self@.pending =~= Seq::empty());
        &self.chain[self.chain.len() - 1]
    }

    /// Adds a transaction to the pool and returns the index of the block
    /// that it will be part of: one more than the index of the last block, or
    /// 0 where the chain has no block.
    pub fn new_transaction(&mut self, sender: &str, recipient: &str, amount: &str) -> (index: usize)
        requires
            old(self)@.chain.len() > 0 ==> old(self)@.chain.last().index < usize::MAX,
        ensures
            final(self)@.pending == old(self)@.pending.push(
                TransactionView { sender: sender@, recipient: recipient@, amount: amount@ },
            ),
            final(self)@.chain == old(self)@.chain,
            final(self)@.peers == old(self)@.peers,
            index == if old(self)@.chain.len() == 0 {
                0
            } else {
                old(self)@.chain.last().index + 1
            },
    {
        let transaction = Transaction::new(sender, recipient, amount);
        self.current_transactions.push(transaction);
        assert(self@.pending =~= old(self)@.pending.push(transaction@));
        if self.chain.len() == 0 {
            0
        } else {
            self.chain[self.chain.len() - 1].index + 1
        }
    }

    /// The blocks, the genesis block first.
    pub fn chain(&self) -> (blocks: &Vec<Block>)
        ensures
            blocks_view(blocks@) == self@.chain,
    {
        &self.chain
    }

    /// The transactions that wait for the next block, oldest first.
    pub fn current_transactions(&self) -> (pending: &Vec<Transaction>)
        ensures
            transactions_view(pending@) == self@.pending,
    {
        &self.current_transactions
    }

    /// The last block of the chain, where there is one.
    pub fn last_block(&self) -> (last: Option<&Block>)
        ensures
            match last {
                Some(block) => self@.chain.len() > 0 && block@ == self@.chain.last(),
                None => self@.chain.len() == 0,
            },
    {
        if self.chain.len() == 0 {
            None
        } else {
            Some(&self.chain[self.chain.len() - 1])
        }
    }

    /// A copy of the chain, with its length.
    pub fn full_chain(&self) -> (snapshot: FullChain)
        ensures
            blocks_view(snapshot.chain@) == self@.chain,
            snapshot.length == self@.chain.len(),
    {
        let chain = self.chain.clone();
        assert(blocks_view(chain@) =~= blocks_view(self.chain@));
        FullChain { chain, length: self.chain.len() }
    }

    /// A copy of the peers' addresses, in the order of registration.
    pub fn node_list(&self) -> (list: NodeList)
        ensures
            texts_view(list.nodes@) == self@.peers,
    {
        let mut nodes: Vec<String> = Vec::new();
        let mut i: usize = 0;
        while i < self.nodes.len()
            invariant
                i <= self.nodes.len(),
                nodes@.len() == i,
                texts_view(nodes@) =~= texts_view(self.nodes@.take(i as int)),
            decreases self.nodes.len() - i,
        {
            let ghost before = nodes@;
            nodes.push(self.nodes[i].clone());
            assert forall|j: int| 0 <= j <= i implies texts_view(nodes@)[j] == texts_view(
                self.nodes@.take(i + 1),
            )[j] by {
                if j < i {
                    assert(texts_view(before)[j] == texts_view(self.nodes@.take(i as int))[j]);
                }
            }
            i += 1;
        }
        assert(self.nodes@.take(i as int) =~= self.nodes@);
        NodeList { nodes }
    }
}

impl Blockchain {
    /// Registers the peer that `parts` name, and tells whether it was new.
    /// Without a host there is no address to register.
    pub fn register_peer(&mut self, parts: &UrlParts) -> (r: Result<bool, LedgerError>)
        ensures
            match address_of(parts.host_view(), parts.port) {
                Some(address) => {
                    &&& r == Ok::<bool, LedgerError>(!old(self)@.peers.contains(address))
                    &&& final(self)@.peers == with_peer(old(self)@.peers, address)
                    &&& final(self)@.peers.contains(address)
                },
                None => {
                    &&& r == Err::<bool, LedgerError>(LedgerError::InvalidPeerAddress)
                    &&& final(self)@.peers == old(self)@.peers
                },
            },
            final(self)@.chain == old(self)@.chain,
            final(self)@.pending == old(self)@.pending,
            old(self)@.wf() ==> final(self)@.wf(),
    {
        match parts.address() {
            Some(address) => {
                let ghost peers = self@.peers;
                proof {
                    if peers.no_duplicates() {
                        lemma_with_peer(peers, address@);
                    }
                }
                match find_peer(&self.nodes, &address) {
                    Some(i) => {
                        assert(peers[i as int] == address@);
                        Ok(false)
                    },
                    None => {
                        assert forall|i: int| 0 <= i < peers.len() implies peers[i]
                            != address@ by {
                            assert(peers[i] == self.nodes@[i]@);
                        }
                        self.nodes.push(address);
                        assert(self@.peers =~= peers.push(address@));
                        assert(self@.peers[peers.len() as int] == address@);
                        Ok(true)
                    },
                }
            },
            None => Err(LedgerError::InvalidPeerAddress),
        }
    }

    /// Registers the peer at `uri` under its host, or its host and port, and
    /// tells whether it was new. Scheme and path are not kept.
    pub fn register_node(&mut self, uri: &str) -> (r: Result<bool, LedgerError>)
        ensures
            r == registration_outcome(old(self)@.peers, uri@),
            final(self)@.peers == after_registration(old(self)@.peers, uri@),
            final(self)@.chain == old(self)@.chain,
            final(self)@.pending == old(self)@.pending,
            old(self)@.wf() ==> final(self)@.wf(),
    {
        match parse_url(uri) {
            Ok(parts) => self.register_peer(&parts),
            Err(_) => Err(LedgerError::MalformedPeerUri),
        }
    }

    /// Registers the peers at `uris` one after the other, and returns what
    /// each registration came to. A text that yields no address is passed
    /// over.
    pub fn register_nodes(&mut self, uris: &Vec<String>) -> (outcomes: Vec<
        Result<bool, LedgerError>,
    >)
        ensures
            final(self)@.peers == after_registrations(old(self)@.peers, texts_view(uris@)),
            outcomes@.len() == uris@.len(),
            forall|i: int|
                0 <= i < uris@.len() ==> #[trigger] outcomes@[i] == registration_outcome(
                    after_registrations(old(self)@.peers, texts_view(uris@).take(i)),
                    uris@[i]@,
                ),
            final(self)@.chain == old(self)@.chain,
            final(self)@.pending == old(self)@.pending,
            old(self)@.wf() ==> final(self)@.wf(),
    {
        let ghost texts = texts_view(uris@);
        let mut outcomes: Vec<Result<bool, LedgerError>> = Vec::new();
        let mut i: usize = 0;
        while i < uris.len()
            invariant
                i <= uris.len(),
                texts == texts_view(uris@),
                outcomes@.len() == i,
                self@.peers == after_registrations(old(self)@.peers, texts.take(i as int)),
                forall|j: int|
                    0 <= j < i ==> #[trigger] outcomes@[j] == registration_outcome(
                        after_registrations(old(self)@.peers, texts.take(j)),
                        uris@[j]@,
                    ),
                self@.chain == old(self)@.chain,
                self@.pending == old(self)@.pending,
                old(self)@.wf() ==> self@.wf(),
            decreases uris.len() - i,
        {
            assert(texts.take(i + 1).drop_last() =~= texts.take(i as int));
            assert(texts.take(i + 1).last() == uris@[i as int]@);
            let outcome = self.register_node(uris[i].as_str());
            outcomes.push(outcome);
            i += 1;
        }
        assert(texts.take(i as int) =~= texts);
        outcomes
    }

    /// The URLs to ask for the peers' chains, one for each peer, in the order
    /// of registration.
    pub fn chain_requests(&self) -> (urls: Vec<String>)
        ensures
            texts_view(urls@) == self@.peers.map_values(|address: Seq<char>| chain_url(address)),
    {
        let ghost wanted = self@.peers.map_values(|address: Seq<char>| chain_url(address));
        let mut urls: Vec<String> = Vec::new();
        let mut i: usize = 0;
        while i < self.nodes.len()
            invariant
                i <= self.nodes.len(),
                urls@.len() == i,
                wanted == self@.peers.map_values(|address: Seq<char>| chain_url(address)),
                forall|j: int| 0 <= j < i ==> (#[trigger] urls@[j])@ == wanted[j],
            decreases self.nodes.len() - i,
        {
            let url = peer_chain_url(self.nodes[i].as_str());
            assert(url@ == wanted[i as int]);
            urls.push(url);
            i += 1;
        }
        assert(texts_view(urls@) =~= wanted);
        urls
    }

    /// Holds one reported chain against the local chain and adopts it where
    /// the rule says so. Returns whether it was adopted.
    pub fn adopt_if_longer(&mut self, report: FullChain) -> (adopted: bool)
        ensures
            adopted == adopts(old(self)@.chain, report@),
            final(self)@.chain == after_report(old(self)@.chain, report@),
            final(self)@.pending == old(self)@.pending,
            final(self)@.peers == old(self)@.peers,
            old(self)@.wf() ==> final(self)@.wf(),
    {
        if report.length > self.chain.len() && Blockchain::valid_chain(&report.chain) {
            self.chain = report.chain;
            true
        } else {
            false
        }
    }

    /// One pass of conflict resolution over what the peers reported, in the
    /// order in which they were asked. Returns whether the local chain was
    /// replaced; the first report of a failure ends the pass with that
    /// failure, and what was adopted before it stays.
    pub fn resolve_conflicts(&mut self, reports: Vec<PeerReport>) -> (r: Result<bool, LedgerError>)
        ensures
            final(self)@.chain == resolution(old(self)@.chain, reports_view(reports@)).chain,
            r == resolution(old(self)@.chain, reports_view(reports@)).outcome,
            final(self)@.pending == old(self)@.pending,
            final(self)@.peers == old(self)@.peers,
            old(self)@.wf() ==> final(self)@.wf(),
            (forall|i: int|
                0 <= i < reports@.len() ==> claims_no_more(#[trigger] reports_view(reports@)[i]))
                ==> final(self)@.chain.len() >= old(self)@.chain.len(),
    {
        let ghost all = reports_view(reports@);
        proof {
            if self@.chain.len() > 0 {
                lemma_resolution_keeps_a_block(self@.chain, all);
            }
            if forall|i: int| 0 <= i < all.len() ==> claims_no_more(#[trigger] all[i]) {
                lemma_resolution_never_shortens(self@.chain, all);
            }
        }
        let mut rest = reports;
        let mut replaced = false;
        while rest.len() > 0
            invariant
                all == reports_view(reports@),
                old(self)@.chain.len() > 0 ==> resolution(old(self)@.chain, all).chain.len() > 0,
                (forall|i: int| 0 <= i < all.len() ==> claims_no_more(#[trigger] all[i]))
                    ==> resolution(old(self)@.chain, all).chain.len() >= old(self)@.chain.len(),
                resolution(old(self)@.chain, all).chain == resolution(
                    self@.chain,
                    reports_view(rest@),
                ).chain,
                resolution(old(self)@.chain, all).outcome == and_before(
                    replaced,
                    resolution(self@.chain, reports_view(rest@)).outcome,
                ),
                self@.pending == old(self)@.pending,
                self@.peers == old(self)@.peers,
            decreases rest.len(),
        {
            let ghost before = reports_view(rest@);
            let report = rest.remove(0);
            assert(before[0] == report@);
            assert(reports_view(rest@) =~= before.drop_first());
            match report {
                PeerReport::Chain(candidate) => {
                    let adopted = self.adopt_if_longer(candidate);
                    replaced = replaced || adopted;
                },
                PeerReport::Unreachable => {
                    return Err(LedgerError::PeerUnreachable);
                },
                PeerReport::Invalid => {
                    return Err(LedgerError::PeerResponseInvalid);
                },
            }
        }
        Ok(replaced)
    }
}

impl Blockchain {
    /// Mines a block that carries the current time: finds the smallest proof
    /// that is accepted after the last block and appends a block with that
    /// proof, the hash of the last block and all pending transactions.
    /// Without a last block, or without such a proof, nothing changes.
    pub fn mine(&mut self) -> (r: Result<Mined, LedgerError>)
        requires
            old(self)@.chain.len() < usize::MAX,
        ensures
            match r {
                Ok(mined) => {
                    &&& mined_on(old(self)@.chain, final(self)@.chain.last())
                    &&& final(self)@.chain == old(self)@.chain.push(
                        next_block(
                            old(self)@,
                            final(self)@.chain.last().timestamp,
                            mined.proof,
                            block_hash(old(self)@.chain.last()),
                        ),
                    )
                    &&& final(self)@.pending.len() == 0
                    &&& final(self)@.peers == old(self)@.peers
                    &&& mined.index == old(self)@.chain.len() + 1
                    &&& transactions_view(mined.transactions@) == old(self)@.pending
                    &&& mined.transactions@.len() == old(self)@.pending.len()
                    &&& mined.previous_hash@ == block_hash(old(self)@.chain.last())
                },
                Err(failure) => {
                    &&& final(self)@ == old(self)@
                    &&& failure == mining_failure(old(self)@.chain)
                },
            },
            r is Err <==> cannot_mine(old(self)@.chain),
    {
        self.mine_at(utc_now())
    }

    /// Mines a block that carries `timestamp`: finds the smallest proof that
    /// is accepted after the last block and appends a block with that proof,
    /// the hash of the last block and all pending transactions. Without a
    /// last block, or without such a proof, nothing changes.
    pub fn mine_at(&mut self, timestamp: String) -> (r: Result<Mined, LedgerError>)
        requires
            old(self)@.chain.len() < usize::MAX,
        ensures
            match r {
                Ok(mined) => {
                    &&& mined_on(old(self)@.chain, final(self)@.chain.last())
                    &&& final(self)@.chain == old(self)@.chain.push(
                        next_block(
                            old(self)@,
                            timestamp@,
                            mined.proof,
                            block_hash(old(self)@.chain.last()),
                        ),
                    )
                    &&& final(self)@.pending.len() == 0
                    &&& final(self)@.peers == old(self)@.peers
                    &&& mined.index == old(self)@.chain.len() + 1
                    &&& transactions_view(mined.transactions@) == old(self)@.pending
                    &&& mined.transactions@.len() == old(self)@.pending.len()
                    &&& mined.previous_hash@ == block_hash(old(self)@.chain.last())
                },
                Err(failure) => {
                    &&& final(self)@ == old(self)@
                    &&& failure == mining_failure(old(self)@.chain)
                },
            },
            r is Err <==> cannot_mine(old(self)@.chain),
    {
        if self.chain.len() == 0 {
            return Err(LedgerError::EmptyChain);
        }
        let last_block = &self.chain[self.chain.len() - 1];
        assert(last_block@ == self@.chain.last());
        match self.proof_of_work(last_block) {
            None => Err(LedgerError::ProofNotFound),
            Some(proof) => {
                let previous_hash = last_block.hash();
                let block = self.append_block(timestamp, proof, previous_hash.as_str());
                let index = block.index;
                let transactions = block.transactions.clone();
                assert(transactions@ =~= block.transactions@);
                Ok(Mined { index, transactions, proof, previous_hash })
            },
        }
    }
}

} // verus!
