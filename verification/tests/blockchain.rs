use blockchain::block::{Block, Headers, Payload};
use blockchain::chain::{Blockchain, ChainError};
use blockchain::block::serialize_payload;
use blockchain::hasher::generate_hash;
use blockchain::pow::validate_hash;

#[test]
fn should_create_blockchain() {
    let blockchain = Blockchain::new(4, "0");
    assert_eq!(blockchain.chain[0].payload.data, "Genesis Block");
    assert_eq!(blockchain.chain[0].payload.seq, 0);
    assert_ne!(blockchain.chain[0].headers.block_hash, "")
}

#[test]
fn should_return_last_block_hash() {
    let blockchain = Blockchain::new(4, "0");
    let last_hash = blockchain.last_hash().unwrap();

    assert_eq!(last_hash, blockchain.chain[0].headers.block_hash);
}

#[test]
fn should_create_a_new_block() {
    let mut blockchain = Blockchain::new(4, "0");
    let block = blockchain.create_block(String::from("New Block")).unwrap();

    assert_eq!(block.previous_hash, blockchain.chain[0].headers.block_hash);
    assert_eq!(block.data, "New Block");
}

#[test]
fn should_mine_the_new_block() {
    let mut blockchain = Blockchain::new(4, "0");
    let block = blockchain.create_block(String::from("New Block")).unwrap();
    let mine_info = blockchain.mine_block(&block).unwrap();
    assert_eq!(mine_info.payload.data, block.data);
}

#[test]
fn should_send_block() {
    let mut blockchain = Blockchain::new(4, "0");
    let block = blockchain.create_block(String::from("New Block on Chain")).unwrap();
    let mine_info = blockchain.mine_block(&block).unwrap();
    let chain = blockchain.send_block(&mine_info);
    assert_eq!(mine_info.payload.data, chain.last().unwrap().payload.data);
}

#[test]
fn proposed_payload_links_to_genesis() {
    let mut blockchain = Blockchain::new(4, "0");
    let payload = blockchain.create_block(String::from("hello")).unwrap();

    assert_eq!(payload.seq, 1);
    assert_eq!(payload.previous_hash, blockchain.chain[0].headers.block_hash);
    assert_eq!(blockchain.chain.len(), 1);
}

#[test]
fn mined_block_meets_target_and_extends_chain() {
    let mut blockchain = Blockchain::new(1, "0");
    let payload = blockchain.create_block(String::from("hello")).unwrap();
    let mined = blockchain.mine_block(&payload).unwrap();

    let recomputed = generate_hash(&serialize_payload(&mined.payload));
    let pow_digest = generate_hash(&format!("{}{}", recomputed, mined.headers.nonce));
    assert!(pow_digest.starts_with("0"));

    let chain = blockchain.send_block(&mined);
    assert_eq!(chain.len(), 2);
    assert_eq!(blockchain.chain.len(), 2);
}

#[test]
fn mining_returns_the_minimal_nonce() {
    let mut blockchain = Blockchain::new(1, "0");
    let payload = blockchain.create_block(String::from("minimal")).unwrap();
    let mined = blockchain.mine_block(&payload).unwrap();

    let block_hash = generate_hash(&serialize_payload(&payload));
    assert_eq!(mined.headers.block_hash, block_hash);
    let mut n: i32 = 0;
    while n < mined.headers.nonce {
        let digest = generate_hash(&format!("{}{}", block_hash, n));
        assert!(!validate_hash(&digest, "0", 1));
        n += 1;
    }
    let winning = generate_hash(&format!("{}{}", block_hash, mined.headers.nonce));
    assert!(validate_hash(&winning, "0", 1));
}

#[test]
fn mined_hash_matches_recomputed_hash() {
    let mut blockchain = Blockchain::new(1, "0");
    let payload = blockchain.create_block(String::from("round trip")).unwrap();
    let mined = blockchain.mine_block(&payload).unwrap();

    let recomputed = generate_hash(&serialize_payload(&mined.payload));
    assert_eq!(mined.headers.block_hash, recomputed);
}

#[test]
fn rejects_block_with_wrong_previous_hash() {
    let mut blockchain = Blockchain::new(1, "0");
    let forged = Block {
        headers: Headers { block_hash: String::from("irrelevant"), nonce: 0 },
        payload: Payload {
            seq: 1,
            timestamp: 0,
            data: String::from("forged"),
            previous_hash: String::from("not the tip"),
        },
    };

    assert_eq!(blockchain.verify_block(&forged), Err(ChainError::RejectedLinkage));
    let chain = blockchain.send_block(&forged);
    assert_eq!(chain.len(), 1);
    assert_eq!(blockchain.chain.len(), 1);
}

#[test]
fn rejects_block_that_fails_proof_of_work() {
    // A 65-symbol target can never be a prefix of a 64-character digest,
    // so nonce 0 (like every other nonce) fails the proof-of-work check.
    let mut blockchain = Blockchain::new(65, "0");
    let tip_hash = blockchain.last_hash().unwrap();
    let candidate = Block {
        headers: Headers { block_hash: String::from("irrelevant"), nonce: 0 },
        payload: Payload {
            seq: 1,
            timestamp: 0,
            data: String::from("unsealed"),
            previous_hash: tip_hash,
        },
    };

    assert_eq!(blockchain.verify_block(&candidate), Err(ChainError::RejectedProofOfWork));
    let chain = blockchain.send_block(&candidate);
    assert_eq!(chain.len(), 1);
    assert_eq!(blockchain.chain.len(), 1);
}

#[test]
fn empty_chain_reports_chain_empty() {
    let empty = Blockchain {
        difficulty: 1,
        chain: Vec::new(),
        pow_prefix: String::from("0"),
    };

    assert_eq!(empty.last_block().err(), Some(ChainError::ChainEmpty));
    assert_eq!(empty.last_hash().err(), Some(ChainError::ChainEmpty));
    let mut empty = empty;
    assert_eq!(empty.create_block(String::from("x")).err(), Some(ChainError::ChainEmpty));
}

#[test]
fn verification_is_a_pure_decision() {
    let mut blockchain = Blockchain::new(1, "0");
    let payload = blockchain.create_block(String::from("again")).unwrap();
    let mined = blockchain.mine_block(&payload).unwrap();

    let first = blockchain.verify_block(&mined);
    let second = blockchain.verify_block(&mined);
    assert_eq!(first, second);
    assert_eq!(first, Ok(()));
}
