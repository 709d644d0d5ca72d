use blockchain::block::Block;
use blockchain::digest::sha256_hex;
use blockchain::json::{push_json_string, push_text};
use blockchain::text::{push_decimal, push_decimal_text, to_hex};
use blockchain::transaction::{write_transactions_json, Transaction};

const GENESIS_PREVIOUS_HASH: &str =
    "6b86b273ff34fce19d6b804eff5a3f5747ada4eaa22f1d49c01e52ddb7875b4b";

fn decimal_of(n: usize) -> String {
    let mut out = Vec::new();
    push_decimal(&mut out, n);
    String::from_utf8(out).unwrap()
}

fn json_string_of(text: &str) -> String {
    let mut out = Vec::new();
    push_json_string(&mut out, text);
    String::from_utf8(out).unwrap()
}

#[test]
fn decimal_notation_of_numbers() {
    assert_eq!(decimal_of(0), "0");
    assert_eq!(decimal_of(7), "7");
    assert_eq!(decimal_of(10), "10");
    assert_eq!(decimal_of(36777), "36777");
    assert_eq!(decimal_of(usize::MAX), usize::MAX.to_string());
}

#[test]
fn decimal_notation_appends_to_what_is_there() {
    let mut out = vec![b'x'];
    push_decimal(&mut out, 120);
    assert_eq!(out, b"x120".to_vec());
    let mut text = String::from("port ");
    push_decimal_text(&mut text, 5000);
    assert_eq!(text, "port 5000");
    push_decimal_text(&mut text, 0);
    assert_eq!(text, "port 50000");
}

#[test]
fn hexadecimal_notation_is_lower_case_with_two_digits_a_byte() {
    assert_eq!(to_hex(&[]), "");
    assert_eq!(to_hex(&[0x00, 0x0a, 0xab, 0xff, 0x10, 0x99]), "000aabff1099");
}

#[test]
fn sha256_of_known_texts() {
    assert_eq!(sha256_hex(b"1"), GENESIS_PREVIOUS_HASH);
    assert_eq!(
        sha256_hex(b""),
        "e3b0c44298fc1c149afbf4c8996fb92427ae41e4649b934ca495991b7852b855"
    );
    assert_eq!(
        sha256_hex(b"abc"),
        "ba7816bf8f01cfea414140de5dae2223b00361a396177a9cb410ff61f20015ad"
    );
}

#[test]
fn text_is_appended_as_utf8() {
    let mut out = vec![b'['];
    push_text(&mut out, "a\u{e9}\"");
    assert_eq!(out, vec![b'[', b'a', 0xc3, 0xa9, b'"']);
}

#[test]
fn json_strings_are_quoted_and_escaped() {
    assert_eq!(json_string_of(""), "\"\"");
    assert_eq!(json_string_of("plain"), "\"plain\"");
    assert_eq!(json_string_of("a\"b"), "\"a\\\"b\"");
    assert_eq!(json_string_of("back\\slash"), "\"back\\\\slash\"");
    assert_eq!(json_string_of("line\nfeed\ttab\r"), "\"line\\nfeed\\ttab\\r\"");
    assert_eq!(json_string_of("\u{1}\u{8}\u{c}\u{1f}"), "\"\\u0001\\b\\f\\u001f\"");
    assert_eq!(json_string_of("caf\u{e9}/\u{7f}"), "\"caf\u{e9}/\u{7f}\"");
}

#[test]
fn transaction_keeps_its_fields() {
    let t = Transaction::new("A", "B", "5.0");
    assert_eq!(t.sender, "A");
    assert_eq!(t.recipient, "B");
    assert_eq!(t.amount, "5.0");
    let copy = t.clone();
    assert_eq!(copy.sender, "A");
    assert_eq!(copy.recipient, "B");
    assert_eq!(copy.amount, "5.0");
}

#[test]
fn transaction_json_has_fixed_field_order() {
    let mut out = Vec::new();
    Transaction::new("A", "B", "5.0").write_json(&mut out);
    assert_eq!(
        String::from_utf8(out).unwrap(),
        "{\"sender\":\"A\",\"recipient\":\"B\",\"amount\":5.0}"
    );
}

#[test]
fn transactions_are_separated_by_commas() {
    let mut out = Vec::new();
    write_transactions_json(&Vec::new(), &mut out);
    assert_eq!(out, Vec::<u8>::new());
    let one = vec![Transaction::new("a", "b", "1.5")];
    write_transactions_json(&one, &mut out);
    assert_eq!(
        String::from_utf8(out).unwrap(),
        "{\"sender\":\"a\",\"recipient\":\"b\",\"amount\":1.5}"
    );
    let mut out = Vec::new();
    let two = vec![Transaction::new("a", "b", "1.5"), Transaction::new("c", "d", "1e-7")];
    write_transactions_json(&two, &mut out);
    assert_eq!(
        String::from_utf8(out).unwrap(),
        "{\"sender\":\"a\",\"recipient\":\"b\",\"amount\":1.5},{\"sender\":\"c\",\"recipient\":\"d\",\"amount\":1e-7}"
    );
}

#[test]
fn canonical_json_of_an_empty_block() {
    let block = Block::with_timestamp(
        1,
        String::from("2024-05-01T12:00:00.011+00:00"),
        Vec::new(),
        1,
        GENESIS_PREVIOUS_HASH,
    );
    let expected = "{\"index\":1,\"timestamp\":\"2024-05-01T12:00:00.011+00:00\",\"transactions\":[],\"proof\":1,\"previous_hash\":\"6b86b273ff34fce19d6b804eff5a3f5747ada4eaa22f1d49c01e52ddb7875b4b\"}";
    assert_eq!(String::from_utf8(block.canonical_json()).unwrap(), expected);
    assert_eq!(
        block.hash(),
        "8cec4e7920c5910335a501a90c3c122fb2548ac95ef280e2487ff230d270bec2"
    );
}

#[test]
fn canonical_json_of_a_block_with_transactions() {
    let block = Block::with_timestamp(
        4,
        String::from("2024-05-04T12:00:00.004+00:00"),
        vec![
            Transaction::new("alice \"a\"\n", "bob\\\u{e9}", "0.25"),
            Transaction::new("c", "d", "1e-7"),
        ],
        34906,
        "2965acf7e05047e9223001df90cd48d98014ed9e0d02bbd744aa4ea2b57953a7",
    );
    let expected = "{\"index\":4,\"timestamp\":\"2024-05-04T12:00:00.004+00:00\",\"transactions\":[{\"sender\":\"alice \\\"a\\\"\\n\",\"recipient\":\"bob\\\\\u{e9}\",\"amount\":0.25},{\"sender\":\"c\",\"recipient\":\"d\",\"amount\":1e-7}],\"proof\":34906,\"previous_hash\":\"2965acf7e05047e9223001df90cd48d98014ed9e0d02bbd744aa4ea2b57953a7\"}";
    assert_eq!(String::from_utf8(block.canonical_json()).unwrap(), expected);
    assert_eq!(
        block.hash(),
        "b46a83578b23a071b2dcd49b14b24916184a5f4f4ad3c6d12f8cbc81c8ecfaac"
    );
}

#[test]
fn hash_agrees_with_serde_json_and_sha2() {
    let block = Block::with_timestamp(
        2,
        String::from("2024-05-02T12:00:00.004+00:00"),
        vec![Transaction::new("A", "B", "5.0")],
        36777,
        "8cec4e7920c5910335a501a90c3c122fb2548ac95ef280e2487ff230d270bec2",
    );
    let text = String::from_utf8(block.canonical_json()).unwrap();
    let value: serde_json::Value = serde_json::from_str(&text).unwrap();
    assert_eq!(value["index"].as_u64(), Some(2));
    assert_eq!(value["proof"].as_u64(), Some(36777));
    assert_eq!(value["timestamp"].as_str(), Some("2024-05-02T12:00:00.004+00:00"));
    assert_eq!(value["transactions"][0]["sender"].as_str(), Some("A"));
    assert_eq!(value["transactions"][0]["recipient"].as_str(), Some("B"));
    assert_eq!(value["transactions"][0]["amount"].as_f64(), Some(5.0));
    assert_eq!(
        block.hash(),
        "1da0d371f1de87d4bd181023b6d3dc23008881132c45cb9e0cb893365afeab7c"
    );
}

#[test]
fn hash_depends_on_every_field() {
    let make = |index: usize, ts: &str, sender: &str, proof: usize, prev: &str| {
        Block::with_timestamp(
            index,
            String::from(ts),
            vec![Transaction::new(sender, "B", "5.0")],
            proof,
            prev,
        )
        .hash()
    };
    let base = make(2, "t", "A", 7, "p");
    assert_eq!(base.len(), 64);
    assert_eq!(base, make(2, "t", "A", 7, "p"));
    assert_ne!(base, make(3, "t", "A", 7, "p"));
    assert_ne!(base, make(2, "u", "A", 7, "p"));
    assert_ne!(base, make(2, "t", "C", 7, "p"));
    assert_ne!(base, make(2, "t", "A", 8, "p"));
    assert_ne!(base, make(2, "t", "A", 7, "q"));
}

#[test]
fn block_with_clock_takes_the_other_fields_as_given() {
    let block = Block::new(9, vec![Transaction::new("A", "B", "2.5")], 77, "abc");
    assert_eq!(block.index, 9);
    assert_eq!(block.proof, 77);
    assert_eq!(block.previous_hash, "abc");
    assert_eq!(block.transactions.len(), 1);
    assert_eq!(block.transactions[0].amount, "2.5");
    assert!(chrono::DateTime::parse_from_rfc3339(&block.timestamp).is_ok());
    let copy = block.clone();
    assert_eq!(copy.hash(), block.hash());
    assert_eq!(copy.timestamp, block.timestamp);
}
