use blockchain::block::Block;
use blockchain::ledger::Blockchain;
use blockchain::transaction::Transaction;

const GENESIS_PREVIOUS_HASH: &str =
    "6b86b273ff34fce19d6b804eff5a3f5747ada4eaa22f1d49c01e52ddb7875b4b";

const TIMESTAMPS: [&str; 5] = [
    "2024-05-01T12:00:00.011+00:00",
    "2024-05-02T12:00:00.004+00:00",
    "2024-05-03T12:00:00.001+00:00",
    "2024-05-04T12:00:00.004+00:00",
    "2024-05-05T12:00:00.040+00:00",
];

const PROOFS: [usize; 5] = [1, 36777, 21739, 34906, 7642];

const HASHES: [&str; 5] = [
    "8cec4e7920c5910335a501a90c3c122fb2548ac95ef280e2487ff230d270bec2",
    "1da0d371f1de87d4bd181023b6d3dc23008881132c45cb9e0cb893365afeab7c",
    "2965acf7e05047e9223001df90cd48d98014ed9e0d02bbd744aa4ea2b57953a7",
    "b46a83578b23a071b2dcd49b14b24916184a5f4f4ad3c6d12f8cbc81c8ecfaac",
    "b8f0caa22f599b4c6134581cc4ba44b5fd22e7650b06d71a0be796d5b394c22b",
];

fn transactions_of(position: usize) -> Vec<Transaction> {
    match position {
        1 => vec![Transaction::new("A", "B", "5.0")],
        3 => vec![
            Transaction::new("alice \"a\"\n", "bob\\\u{e9}", "0.25"),
            Transaction::new("c", "d", "1e-7"),
        ],
        _ => Vec::new(),
    }
}

fn valid_chain_of(length: usize) -> Vec<Block> {
    let mut chain = Vec::new();
    for i in 0..length {
        let previous_hash = if i == 0 { GENESIS_PREVIOUS_HASH } else { HASHES[i - 1] };
        chain.push(Block::with_timestamp(
            i + 1,
            String::from(TIMESTAMPS[i]),
            transactions_of(i),
            PROOFS[i],
            previous_hash,
        ));
    }
    chain
}

#[test]
fn fixture_blocks_hash_as_recorded() {
    let chain = valid_chain_of(5);
    for i in 0..5 {
        assert_eq!(chain[i].hash(), HASHES[i]);
    }
}

#[test]
fn empty_chain_is_invalid() {
    assert!(!Blockchain::valid_chain(&Vec::new()));
}

#[test]
fn single_block_is_valid_whatever_it_holds() {
    assert!(Blockchain::valid_chain(&valid_chain_of(1)));
    let odd = vec![Block::with_timestamp(42, String::from("never"), Vec::new(), 0, "no hash")];
    assert!(Blockchain::valid_chain(&odd));
}

#[test]
fn linked_chains_with_accepted_proofs_are_valid() {
    for length in 1..=5 {
        assert!(Blockchain::valid_chain(&valid_chain_of(length)));
    }
}

#[test]
fn tampered_previous_hash_is_detected_at_every_position() {
    for position in 1..5 {
        let mut chain = valid_chain_of(5);
        chain[position].previous_hash = String::from(HASHES[4]);
        assert!(!Blockchain::valid_chain(&chain));
        let mut chain = valid_chain_of(5);
        chain[position].previous_hash.push('0');
        assert!(!Blockchain::valid_chain(&chain));
    }
}

#[test]
fn tampered_proof_is_detected_at_every_position() {
    for position in 1..5 {
        let mut chain = valid_chain_of(5);
        chain[position].proof += 1;
        assert!(!Blockchain::valid_chain(&chain));
        let mut chain = valid_chain_of(5);
        chain[position].proof = 0;
        assert!(!Blockchain::valid_chain(&chain));
    }
}

#[test]
fn tampered_contents_break_the_link_of_the_next_block() {
    let mut chain = valid_chain_of(5);
    chain[1].transactions[0].amount = String::from("500.0");
    assert!(!Blockchain::valid_chain(&chain));
    let mut chain = valid_chain_of(5);
    chain[0].timestamp = String::from("2024-05-01T12:00:00.012+00:00");
    assert!(!Blockchain::valid_chain(&chain));
    let mut chain = valid_chain_of(5);
    chain[2].index = 30;
    assert!(!Blockchain::valid_chain(&chain));
    let mut chain = valid_chain_of(5);
    chain[0].proof = 2;
    assert!(!Blockchain::valid_chain(&chain));
}

#[test]
fn second_block_is_checked_against_the_first() {
    let mut chain = valid_chain_of(2);
    assert!(Blockchain::valid_chain(&chain));
    chain[1].proof = 21739;
    assert!(!Blockchain::valid_chain(&chain));
}

#[test]
fn every_link_is_checked_against_the_block_before_it() {
    // The third block names the first block's hash: right for position 1,
    // wrong for position 2.
    let mut chain = valid_chain_of(3);
    chain[2].previous_hash = String::from(HASHES[0]);
    chain[2].proof = PROOFS[1];
    assert!(!Blockchain::valid_chain(&chain));
}

#[test]
fn indices_and_last_contents_are_not_part_of_the_check() {
    let mut chain = valid_chain_of(5);
    chain[4].index = 77;
    chain[4].timestamp = String::from("later");
    chain[4].transactions.push(Transaction::new("x", "y", "1.0"));
    assert!(Blockchain::valid_chain(&chain));
}
