//! Blocks, their digest, and the proof-of-work predicate that admits them.

use vstd::prelude::*;
use crate::crypto::{opt_bytes_view, sha256, sha256_of};
use crate::encoding::{block_content_bytes, encode_block_content, pow_input_bytes, TransactionFields};
use crate::crypto::PublicKey;
use crate::transaction::{Transaction, BLOCK_REWARD};

verus! {

/// The previous nonce that the first block of every chain is mined against.
pub const GENESIS_PREV_NONCE: u32 = 0;

/// The creation time written into every first block.
pub const GENESIS_TIMESTAMP: i64 = 0;

/// The first block's coinbase pays the all-zero key, which belongs to no
/// node, so that every chain starts from the same block.
pub open spec fn is_genesis_recipient(k: PublicKey) -> bool {
    forall|i: int| 0 <= i < 32 ==> k.bytes@[i] == 0
}

/// The all-zero key that the first block pays.
pub fn genesis_recipient() -> (r: PublicKey)
    ensures
        is_genesis_recipient(r),
{
    PublicKey { bytes: [0u8; 32] }
}

/// The first block's nonce: the least one admitted against the conventional
/// previous nonce and no previous digest, or 0 when none is admitted.
pub open spec fn is_genesis_nonce(n: u32) -> bool {
    if exists|m: u32| nonce_ok(GENESIS_PREV_NONCE, m, None) {
        is_first_valid_nonce(GENESIS_PREV_NONCE, None, n)
    } else {
        n == 0
    }
}

/// `b` is the first block that every chain starts from.
pub open spec fn is_genesis_block(b: Block) -> bool {
    &&& b.ind == 0
    &&& b.timestamp == GENESIS_TIMESTAMP
    &&& b.transactions@.len() == 0
    &&& b.previous_hash is None
    &&& b.coinbase_transaction.sender_addr is None
    &&& is_genesis_recipient(b.coinbase_transaction.recipient_addr)
    &&& b.coinbase_transaction.value == BLOCK_REWARD
    &&& b.coinbase_transaction.signed_digest is None
    &&& is_genesis_nonce(b.nonce)
}

/// First blocks agree: any two have the same content bytes, hence the same
/// digest, the same coinbase and the same nonce.
pub proof fn lemma_genesis_blocks_agree(b1: Block, b2: Block)
    requires
        is_genesis_block(b1),
        is_genesis_block(b2),
    ensures
        b1.content_bytes() == b2.content_bytes(),
        b1.digest() == b2.digest(),
        b1.coinbase_transaction == b2.coinbase_transaction,
        b1.nonce == b2.nonce,
{
    assert(b1.coinbase_transaction.recipient_addr.bytes =~= b2.coinbase_transaction.recipient_addr.bytes);
    assert(contents_of(b1.transactions@) =~= contents_of(b2.transactions@));
    if exists|m: u32| nonce_ok(GENESIS_PREV_NONCE, m, None) {
        if b1.nonce < b2.nonce {
            assert(!nonce_ok(GENESIS_PREV_NONCE, b1.nonce, None));
        }
        if b2.nonce < b1.nonce {
            assert(!nonce_ok(GENESIS_PREV_NONCE, b2.nonce, None));
        }
    }
}

/// A sealed batch of transactions with its coinbase reward, linked to the
/// digest of the block before it.
#[derive(Clone, Debug)]
pub struct Block {
    /// Position in the chain; the first block is 0.
    pub ind: usize,
    /// Creation time, in milliseconds since the Unix epoch.
    pub timestamp: i64,
    pub transactions: Vec<Transaction>,
    /// Digest of the previous block; absent only for the first block.
    pub previous_hash: Option<Vec<u8>>,
    pub coinbase_transaction: Transaction,
    /// Found by the proof-of-work search; not part of the digest.
    pub nonce: u32,
}

/// The signed content of each transaction, in order.
pub open spec fn contents_of(s: Seq<Transaction>) -> Seq<TransactionFields> {
    s.map_values(|t: Transaction| t.content())
}

/// The digest of the proof-of-work input is admitted when it starts with
/// two zero bytes.
pub open spec fn nonce_ok(last: u32, current: u32, prev: Option<Seq<u8>>) -> bool {
    let d = sha256_of(pow_input_bytes(last, current, prev));
    d.len() >= 2 && d[0] == 0 && d[1] == 0
}

/// `n` is the least nonce admitted after `last` and `prev`.
pub open spec fn is_first_valid_nonce(last: u32, prev: Option<Seq<u8>>, n: u32) -> bool {
    &&& nonce_ok(last, n, prev)
    &&& forall|m: u32| m < n ==> !#[trigger] nonce_ok(last, m, prev)
}

impl Block {
    /// The bytes that the digest covers: all but the nonce.
    pub open spec fn content_bytes(self) -> Seq<u8> {
        block_content_bytes(
            self.ind as u64,
            self.timestamp,
            contents_of(self.transactions@),
            opt_bytes_view(self.previous_hash),
            self.coinbase_transaction.content(),
        )
    }

    pub open spec fn digest(self) -> Seq<u8> {
        sha256_of(self.content_bytes())
    }

    /// Every transfer in the block verifies.
    pub open spec fn transactions_authentic(self) -> bool {
        forall|i: int|
            0 <= i < self.transactions@.len() ==> #[trigger] self.transactions@[i].is_authentic()
    }

    /// The digest of the block's content.
    pub fn hash(&self) -> (r: Vec<u8>)
        ensures
            r@ == self.digest(),
            r@.len() == 32,
    {
        let mut fields: Vec<TransactionFields> = Vec::new();
        let mut i: usize = 0;
        while i < self.transactions.len()
            invariant
                0 <= i <= self.transactions@.len(),
                fields@ == contents_of(self.transactions@.subrange(0, i as int)),
            decreases self.transactions@.len() - i,
        {
            fields.push(self.transactions[i].fields());
            i = i + 1;
            assert(fields@ =~= contents_of(self.transactions@.subrange(0, i as int)));
        }
        assert(self.transactions@.subrange(0, i as int) =~= self.transactions@);
        let serialized = encode_block_content(
            self.ind as u64,
            self.timestamp,
            &fields,
            &self.previous_hash,
            &self.coinbase_transaction.fields(),
        );
        sha256(serialized.as_slice())
    }

    /// Checks every transfer in the block.
    pub fn validate_transactions(&self) -> (r: bool)
        ensures
            r == self.transactions_authentic(),
    {
        let mut i: usize = 0;
        while i < self.transactions.len()
            invariant
                0 <= i <= self.transactions@.len(),
                forall|j: int| 0 <= j < i ==> #[trigger] self.transactions@[j].is_authentic(),
            decreases self.transactions@.len() - i,
        {
            if !self.transactions[i].verify_digest() {
                return false;
            }
            i = i + 1;
        }
        true
    }
}

} // verus!
