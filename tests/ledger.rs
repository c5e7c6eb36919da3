use sodiumoxide::crypto::hash::sha256;
use sodiumoxide::crypto::sign;
use tulipchain::block::GENESIS_PREV_NONCE;
use tulipchain::crypto::gen_keypair;
use tulipchain::transaction::BLOCK_REWARD;
use tulipchain::{Address, Block, Blockchain, PrivateKey, PublicKey, Transaction};

// After signing a transaction with a users private key, we should be able to verify
// that user signed it. If the user didn't, the verification should fail.
#[test]
fn test_signing() {
    let mut src_address = Address::new();
    let dest_address = Address::new();

    // Because the sending account has 0 balance, the sending value is 0 tulips
    let transaction = src_address.new_transaction(0, dest_address.public_key).unwrap();
    assert!(transaction.verify_digest());

    // Now, check that dest_address's attempt at tulip theft(!) is detected
    let mut forged_transaction = Transaction {
        sender_addr: Some(src_address.public_key),
        recipient_addr: dest_address.public_key,
        value: 100,
        signed_digest: None,
    };

    let (_public_key, private_key) = sign::gen_keypair();
    forged_transaction.sign(&PrivateKey::from_bytes(private_key.0));

    assert!(!forged_transaction.verify_digest());
}

#[test]
fn test_proof_of_work() {
    let mut blockchain = Blockchain::new();

    // Check that the chain with only the genesis block is valid
    assert!(blockchain.is_valid_chain());

    let nonce = blockchain.chain[0].nonce;
    blockchain.chain[0].nonce = 10;

    // Check that replacing the nonce invalidates the chain
    assert!(!blockchain.is_valid_chain());

    // Correct the nonce and ensure the chain is valid again
    blockchain.chain[0].nonce = nonce;
    assert!(blockchain.is_valid_chain());

    let mut src_address = Address::new();
    let dest_address = Address::new();
    let transaction = src_address.new_transaction(0, dest_address.public_key).unwrap();

    let transaction_clone = transaction.clone();
    assert!(blockchain.append_transaction(transaction));
    assert!(transaction_clone == blockchain.pending_transactions[0]);

    let last_nonce = blockchain.get_last_nonce();
    let nonce = Blockchain::find_nonce(last_nonce, &None).unwrap();

    let payout_addr = blockchain.address.clone().unwrap().public_key;
    blockchain.append_block(nonce, None, payout_addr);

    assert!(blockchain.chain.len() == 2);
    assert!(blockchain.chain.last().unwrap().transactions.len() == 1);

    println!("{:?}", blockchain.chain.last().unwrap());
}

fn le32(n: u32) -> Vec<u8> {
    n.to_le_bytes().to_vec()
}

fn coinbase_bytes(recipient: &PublicKey, value: u32) -> Vec<u8> {
    let mut bytes = vec![0u8];
    bytes.extend_from_slice(&recipient.bytes);
    bytes.extend_from_slice(&le32(value));
    bytes
}

#[test]
fn signature_from_another_key_fails() {
    let mut sender = Address::new();
    let other = Address::new();
    let recipient = Address::new();
    let mut t = sender.new_transaction(0, recipient.public_key).unwrap();
    assert!(t.verify_digest());
    // The same tag checked against another key fails.
    t.sender_addr = Some(other.public_key);
    assert!(!t.verify_digest());
}

#[test]
fn tampered_value_fails_verification() {
    let mut sender = Address::new();
    sender.balance = 10;
    let recipient = Address::new();
    let mut t = sender.new_transaction(3, recipient.public_key).unwrap();
    assert!(t.verify_digest());
    t.value = 4;
    assert!(!t.verify_digest());
}

#[test]
fn unsigned_transfer_fails_and_coinbase_passes() {
    let a = Address::new();
    let b = Address::new();
    let unsigned = Transaction::new(Some(a.public_key), b.public_key, 0);
    assert!(!unsigned.verify_digest());
    let coinbase = Transaction::create_coinbase_transaction(b.public_key);
    assert!(coinbase.verify_digest());
    assert_eq!(coinbase.value, BLOCK_REWARD);
    assert!(coinbase.sender_addr.is_none());
}

#[test]
fn new_transaction_lowers_local_balance() {
    let mut a = Address::new();
    a.balance = 10;
    let b = Address::new();
    let t = a.new_transaction(4, b.public_key).unwrap();
    assert_eq!(a.balance, 6);
    assert_eq!(t.value, 4);
    assert!(t.sender_addr == Some(a.public_key));
    assert!(t.recipient_addr == b.public_key);
}

#[test]
fn unaffordable_transaction_is_refused() {
    let mut a = Address::new();
    let b = Address::new();
    assert!(a.new_transaction(5, b.public_key).is_none());
    assert_eq!(a.balance, 0);
}

#[test]
fn zero_value_scenario_seals_a_block() {
    let mut c = Blockchain::new();
    assert!(c.is_valid_chain());
    let mut a = Address::new();
    let b = Address::new();
    let t = a.new_transaction(0, b.public_key).unwrap();
    assert!(t.verify_digest());
    assert!(c.append_transaction(t));
    assert_eq!(c.pending_transactions.len(), 1);
    let tip = c.chain.last().unwrap();
    let nonce = Blockchain::find_nonce(tip.nonce, &Some(tip.hash())).unwrap();
    c.append_block(nonce, None, a.public_key);
    assert_eq!(c.chain.len(), 2);
    let sealed = c.chain.last().unwrap();
    assert_eq!(sealed.transactions.len(), 1);
    assert!(sealed.coinbase_transaction.recipient_addr == a.public_key);
    assert_eq!(sealed.ind, 1);
    assert!(c.pending_transactions.is_empty());
    assert!(c.is_valid_chain());
    assert!(sealed.validate_transactions());
}

#[test]
fn forged_transaction_is_rejected_by_ledger() {
    let mut c = Blockchain::new();
    let a = Address::new();
    let b = Address::new();
    let mut forged = Transaction::new(Some(a.public_key), b.public_key, 0);
    let (_pk, sk) = gen_keypair();
    forged.sign(&sk);
    assert!(!forged.verify_digest());
    assert!(!c.append_transaction(forged));
    assert!(c.pending_transactions.is_empty());
    assert_eq!(c.balance_of(&a.public_key), 0);
    assert_eq!(c.balance_of(&b.public_key), 0);
    assert!(c.address_balances.is_empty());
}

#[test]
fn forged_coinbase_is_rejected() {
    let mut c = Blockchain::new();
    let b = Address::new();
    let coinbase = Transaction::create_coinbase_transaction(b.public_key);
    assert!(!c.append_transaction(coinbase));
    assert!(c.pending_transactions.is_empty());
    assert!(c.address_balances.is_empty());
}

#[test]
fn replayed_coinbase_credits_and_funds_a_transfer() {
    let mut c = Blockchain::new();
    let mut node = c.address.unwrap();
    c.append_block(0, None, node.public_key);
    let replay = c.chain[1].coinbase_transaction.clone();
    assert!(c.append_transaction(replay));
    assert_eq!(c.balance_of(&node.public_key), 1);

    let b = Address::new();
    node.balance = 1;
    let t = node.new_transaction(1, b.public_key).unwrap();
    assert!(c.append_transaction(t));
    assert_eq!(c.balance_of(&node.public_key), 0);
    assert_eq!(c.balance_of(&b.public_key), 1);
    assert_eq!(c.pending_transactions.len(), 2);

    // The sender now holds nothing.
    let mut node2 = node;
    node2.balance = 1;
    let t2 = node2.new_transaction(1, b.public_key).unwrap();
    assert!(!c.append_transaction(t2));
    assert_eq!(c.balance_of(&b.public_key), 1);
}

#[test]
fn self_transfer_keeps_balance() {
    let mut c = Blockchain::new();
    let mut node = c.address.unwrap();
    c.append_block(0, None, node.public_key);
    let replay = c.chain[1].coinbase_transaction.clone();
    assert!(c.append_transaction(replay));
    node.balance = 1;
    let t = node.new_transaction(1, node.public_key).unwrap();
    assert!(c.append_transaction(t));
    assert_eq!(c.balance_of(&node.public_key), 1);
}

#[test]
fn credit_overflow_is_rejected() {
    let mut c = Blockchain::new();
    let zero = PublicKey { bytes: [0u8; 32] };
    c.address_balances.push((zero, u32::MAX));
    let replay = c.chain[0].coinbase_transaction.clone();
    assert!(!c.append_transaction(replay));
    assert_eq!(c.balance_of(&zero), u32::MAX);
    assert!(c.pending_transactions.is_empty());
}

#[test]
fn unknown_sender_may_send_nothing_but_zero() {
    let mut c = Blockchain::new();
    let mut a = Address::new();
    a.balance = 5;
    let b = Address::new();
    let t = a.new_transaction(5, b.public_key).unwrap();
    assert!(!c.append_transaction(t));
    let t0 = a.new_transaction(0, b.public_key).unwrap();
    assert!(c.append_transaction(t0));
    assert_eq!(c.address_balances.len(), 2);
}

#[test]
fn registering_a_peer_twice_keeps_one_entry() {
    let mut c = Blockchain::new();
    c.register_peer(String::from("http://127.0.0.1:8000"));
    c.register_peer(String::from("http://127.0.0.1:8000"));
    assert_eq!(c.peers.len(), 1);
    c.register_peer(String::from("http://127.0.0.1:8001"));
    assert_eq!(c.peers.len(), 2);
}

#[test]
fn tampering_with_a_later_nonce_invalidates() {
    let mut c = Blockchain::new();
    let tip_nonce = c.get_last_nonce();
    let prev = Some(c.chain[0].hash());
    let nonce = Blockchain::find_nonce(tip_nonce, &prev).unwrap();
    let node = c.address.unwrap().public_key;
    c.append_block(nonce, None, node);
    assert!(c.is_valid_chain());
    let saved = c.chain[1].nonce;
    c.chain[1].nonce = saved.wrapping_add(1);
    if !Blockchain::is_valid_nonce(c.chain[0].nonce, c.chain[1].nonce, &c.chain[1].previous_hash) {
        assert!(!c.is_valid_chain());
    }
    c.chain[1].nonce = saved;
    assert!(c.is_valid_chain());
    assert_eq!(c.get_last_nonce(), saved);
}

#[test]
fn find_nonce_returns_the_least_admitted() {
    let n = Blockchain::find_nonce(GENESIS_PREV_NONCE, &None).unwrap();
    assert!(Blockchain::is_valid_nonce(GENESIS_PREV_NONCE, n, &None));
    for m in 0..n {
        assert!(!Blockchain::is_valid_nonce(GENESIS_PREV_NONCE, m, &None));
    }
}

#[test]
fn nonce_predicate_hashes_the_encoded_triple() {
    for current in 0u32..300 {
        let mut bytes = le32(7);
        bytes.extend_from_slice(&le32(current));
        bytes.push(1);
        bytes.extend_from_slice(&3u64.to_le_bytes());
        bytes.extend_from_slice(&[9, 8, 7]);
        let sha256::Digest(d) = sha256::hash(&bytes);
        let expected = d[0] == 0 && d[1] == 0;
        assert_eq!(Blockchain::is_valid_nonce(7, current, &Some(vec![9, 8, 7])), expected);
    }
}

#[test]
fn transaction_digest_covers_the_encoded_content() {
    let b = Address::new();
    let coinbase = Transaction::create_coinbase_transaction(b.public_key);
    let sha256::Digest(d) = sha256::hash(&coinbase_bytes(&b.public_key, 1));
    assert_eq!(coinbase.compute_digest(), d.to_vec());
}

#[test]
fn block_digest_covers_content_but_not_nonce() {
    let b = Address::new();
    let mut block = Block {
        ind: 3,
        timestamp: -2,
        transactions: vec![],
        previous_hash: None,
        coinbase_transaction: Transaction::create_coinbase_transaction(b.public_key),
        nonce: 5,
    };
    let mut bytes = 3u64.to_le_bytes().to_vec();
    bytes.extend_from_slice(&(-2i64).to_le_bytes());
    bytes.extend_from_slice(&0u64.to_le_bytes());
    bytes.push(0);
    bytes.extend_from_slice(&coinbase_bytes(&b.public_key, 1));
    let sha256::Digest(d) = sha256::hash(&bytes);
    let digest = block.hash();
    assert_eq!(digest, d.to_vec());
    block.nonce = 6;
    assert_eq!(block.hash(), digest);
    block.ind = 4;
    assert_ne!(block.hash(), digest);
}

#[test]
fn append_block_uses_a_given_previous_hash() {
    let mut c = Blockchain::new();
    let node = c.address.unwrap().public_key;
    c.append_block(42, Some(vec![1, 2, 3]), node);
    assert_eq!(c.chain[1].previous_hash, Some(vec![1, 2, 3]));
    assert_eq!(c.chain[1].nonce, 42);
    assert_eq!(c.get_last_nonce(), 42);
}

#[test]
fn genesis_block_shape() {
    let c = Blockchain::new();
    assert_eq!(c.chain.len(), 1);
    let g = &c.chain[0];
    assert_eq!(g.ind, 0);
    assert!(g.transactions.is_empty());
    assert!(g.previous_hash.is_none());
    assert!(g.coinbase_transaction.recipient_addr == PublicKey { bytes: [0u8; 32] });
    assert_eq!(g.timestamp, 0);
    assert_eq!(g.coinbase_transaction.value, BLOCK_REWARD);
    assert!(Blockchain::is_valid_nonce(GENESIS_PREV_NONCE, g.nonce, &None));
    assert_eq!(Some(g.nonce), Blockchain::find_nonce(GENESIS_PREV_NONCE, &None));
}

#[test]
fn genesis_blocks_of_two_chains_agree() {
    let c1 = Blockchain::new();
    let c2 = Blockchain::new();
    assert_eq!(c1.chain[0].hash(), c2.chain[0].hash());
    assert_eq!(c1.chain[0].nonce, c2.chain[0].nonce);
    assert!(c1.chain[0].coinbase_transaction == c2.chain[0].coinbase_transaction);
    assert!(!(c1.address.unwrap().public_key == c2.address.unwrap().public_key));
}

#[test]
fn block_with_forged_transfer_fails_validation() {
    let a = Address::new();
    let b = Address::new();
    let forged = Transaction::new(Some(a.public_key), b.public_key, 0);
    let block = Block {
        ind: 1,
        timestamp: 0,
        transactions: vec![forged],
        previous_hash: Some(vec![0; 32]),
        coinbase_transaction: Transaction::create_coinbase_transaction(b.public_key),
        nonce: 0,
    };
    assert!(!block.validate_transactions());
}

#[test]
fn node_transaction_is_signed_and_queued() {
    let mut c = Blockchain::new();
    let node = c.address.unwrap();
    let b = Address::new();
    let t = c.new_transaction_from_node(0, b.public_key).unwrap();
    assert!(t.verify_digest());
    assert!(t.sender_addr == Some(node.public_key));
    assert_eq!(c.pending_transactions.len(), 1);
    assert!(c.pending_transactions[0] == t);
    assert!(c.new_transaction_from_node(1, b.public_key).is_none());
    assert_eq!(c.pending_transactions.len(), 1);
    assert_eq!(c.address.unwrap().balance, 0);
}
