use blockchain::block::{Payload, serialize_payload};
use blockchain::chain::Blockchain;
use blockchain::codec::i64_to_string;
use blockchain::hasher::generate_hash;
use blockchain::pow::validate_hash;

fn serde_json_reference(payload: &Payload) -> String {
    let mut object = serde_json::Map::new();
    object.insert(String::from("seq"), serde_json::Value::from(payload.seq));
    object.insert(String::from("timestamp"), serde_json::Value::from(payload.timestamp));
    object.insert(String::from("data"), serde_json::Value::from(payload.data.clone()));
    object.insert(
        String::from("previous_hash"),
        serde_json::Value::from(payload.previous_hash.clone()),
    );
    serde_json::to_string(&serde_json::Value::Object(object)).unwrap()
}

#[test]
fn serialization_has_fixed_key_order() {
    let payload = Payload {
        seq: 7,
        timestamp: 1234567890,
        data: String::from("hello"),
        previous_hash: String::from("abc"),
    };
    assert_eq!(
        serialize_payload(&payload),
        "{\"seq\":7,\"timestamp\":1234567890,\"data\":\"hello\",\"previous_hash\":\"abc\"}"
    );
}

#[test]
fn serialization_renders_negative_numbers() {
    let payload = Payload {
        seq: -3,
        timestamp: -5,
        data: String::from(""),
        previous_hash: String::from(""),
    };
    assert_eq!(
        serialize_payload(&payload),
        "{\"seq\":-3,\"timestamp\":-5,\"data\":\"\",\"previous_hash\":\"\"}"
    );
}

#[test]
fn serialization_escapes_like_the_json_reference() {
    let payload = Payload {
        seq: 0,
        timestamp: 42,
        data: String::from("a\"b\\c\nd\te\u{8}f\u{c}g\rh\u{1}i\u{1f}j héllo ✓"),
        previous_hash: String::from("plain"),
    };
    assert_eq!(serialize_payload(&payload), serde_json_reference(&payload));
    assert!(serialize_payload(&payload).contains("\\u0001"));
    assert!(serialize_payload(&payload).contains("\\u001f"));
}

#[test]
fn genesis_serialization_matches_the_json_reference() {
    let blockchain = Blockchain::new(1, "0");
    let genesis = &blockchain.chain[0].payload;
    assert_eq!(serialize_payload(genesis), serde_json_reference(genesis));
    assert_eq!(
        blockchain.chain[0].headers.block_hash,
        generate_hash(&serde_json_reference(genesis))
    );
}

#[test]
fn decimal_rendering_matches_std() {
    let values: Vec<i64> = vec![0, 1, 9, 10, 12345, -1, -10, i64::MAX, i64::MIN, i32::MIN as i64];
    for value in values {
        assert_eq!(i64_to_string(value), format!("{}", value));
    }
}

#[test]
fn hashing_is_deterministic_and_matches_known_digests() {
    assert_eq!(
        generate_hash("abc"),
        "ba7816bf8f01cfea414140de5dae2223b00361a396177a9cb410ff61f20015ad"
    );
    assert_eq!(
        generate_hash(""),
        "e3b0c44298fc1c149afbf4c8996fb92427ae41e4649b934ca495991b7852b855"
    );
    assert_eq!(generate_hash("same input"), generate_hash("same input"));
}

#[test]
fn validate_hash_checks_the_repeated_prefix() {
    assert!(validate_hash("0000abcd", "0", 4));
    assert!(!validate_hash("0ab", "0", 2));
    assert!(validate_hash("anything", "", 5));
    assert!(validate_hash("abc", "0", 0));
    assert!(validate_hash("ababx", "ab", 2));
    assert!(!validate_hash("abax", "ab", 2));
    assert!(!validate_hash("abc", "abcd", 1));
    assert!(!validate_hash("", "0", 1));
}
