//! The ledger: the chain of blocks, the pool of pending transactions, the
//! balance book and the directory of peers.

use vstd::prelude::*;
use crate::address::Address;
use crate::balances::{
    balance_in, get_balance, keys_distinct, lemma_set_balance, lookup, set_balance,
    set_balance_spec, total, BalanceEntry,
};
use crate::block::{
    genesis_recipient, is_first_valid_nonce, is_genesis_block, nonce_ok, Block, GENESIS_PREV_NONCE,
    GENESIS_TIMESTAMP,
};
use crate::crypto::{opt_bytes_view, sha256, PublicKey};
use crate::encoding::encode_pow_input;
use crate::transaction::{same_transaction, Transaction, BLOCK_REWARD};

verus! {

/// Relies on chrono's `Utc::now`: the current time in milliseconds since the
/// Unix epoch. Nothing is known of the value.
#[verifier::external_body]
fn now_millis() -> (r: i64) {
    chrono::Utc::now().timestamp_millis()
}

/// The nonce that block `i` of `c` is mined against.
pub open spec fn prev_nonce(c: Seq<Block>, i: int) -> u32 {
    if i == 0 { GENESIS_PREV_NONCE } else { c[i - 1].nonce }
}

/// Block `i` of `c` carries an admitted nonce.
pub open spec fn block_pow_ok(c: Seq<Block>, i: int) -> bool {
    nonce_ok(prev_nonce(c, i), c[i].nonce, opt_bytes_view(c[i].previous_hash))
}

/// Every block's nonce is admitted against the previous block's nonce (the
/// convention for the first block) and its own recorded previous digest.
pub open spec fn chain_valid(c: Seq<Block>) -> bool {
    forall|i: int| 0 <= i < c.len() ==> #[trigger] block_pow_ok(c, i)
}

/// Some block of `c` has `t` as its coinbase.
pub open spec fn coinbase_in_chain(c: Seq<Block>, t: Transaction) -> bool {
    exists|i: int| 0 <= i < c.len() && same_transaction(#[trigger] c[i].coinbase_transaction, t)
}

/// The value that accepting `t` creates: a coinbase mints, a transfer moves.
pub open spec fn minted(t: Transaction) -> nat {
    if t.sender_addr is None { t.value as nat } else { 0 }
}

/// The book after debiting the sender of `t` (nothing for a coinbase).
pub open spec fn debited(s: Seq<BalanceEntry>, t: Transaction) -> Seq<BalanceEntry> {
    match t.sender_addr {
        None => s,
        Some(snd) => set_balance_spec(s, snd, (balance_in(s, snd) - t.value) as u32),
    }
}

/// The book after applying `t`: debit the sender, then credit the recipient.
pub open spec fn after_transaction(s: Seq<BalanceEntry>, t: Transaction) -> Seq<BalanceEntry> {
    let d = debited(s, t);
    set_balance_spec(d, t.recipient_addr, (balance_in(d, t.recipient_addr) + t.value) as u32)
}

/// The book can carry `t`: the sender holds at least the value, and the
/// recipient's balance stays within 32 bits.
pub open spec fn funds_cover(s: Seq<BalanceEntry>, t: Transaction) -> bool {
    &&& match t.sender_addr {
        None => true,
        Some(snd) => t.value <= balance_in(s, snd),
    }
    &&& balance_in(debited(s, t), t.recipient_addr) + t.value <= u32::MAX
}

/// Peer list after registering `addr`: unchanged when it is there already.
pub open spec fn with_peer(p: Seq<String>, addr: String) -> Seq<String> {
    if exists|i: int| 0 <= i < p.len() && (#[trigger] p[i])@ == addr@ {
        p
    } else {
        p.push(addr)
    }
}

/// Balance conservation: applying an accepted transaction changes the sum of
/// all balances by exactly what it mints, and no other account than its
/// sender and recipient.
pub proof fn lemma_transaction_conserves(s: Seq<BalanceEntry>, t: Transaction)
    requires
        funds_cover(s, t),
    ensures
        total(after_transaction(s, t)) == total(s) + minted(t),
        forall|k: PublicKey|
            k != t.recipient_addr && Some(k) != t.sender_addr ==> #[trigger] lookup(
                after_transaction(s, t),
                k,
            ) == lookup(s, k),
        keys_distinct(s) ==> keys_distinct(after_transaction(s, t)),
{
    let d = debited(s, t);
    let r = t.recipient_addr;
    match t.sender_addr {
        None => {},
        Some(snd) => {
            lemma_set_balance(s, snd, (balance_in(s, snd) - t.value) as u32);
        },
    }
    lemma_set_balance(d, r, (balance_in(d, r) + t.value) as u32);
}

/// No address appears twice in `p`.
pub open spec fn peers_distinct(p: Seq<String>) -> bool {
    forall|i: int, j: int| 0 <= i < j < p.len() ==> (#[trigger] p[i])@ != (#[trigger] p[j])@
}

/// The book after applying each of `ts` in turn.
pub open spec fn after_all(s: Seq<BalanceEntry>, ts: Seq<Transaction>) -> Seq<BalanceEntry>
    decreases ts.len(),
{
    if ts.len() == 0 {
        s
    } else {
        after_transaction(after_all(s, ts.drop_last()), ts.last())
    }
}

/// What the transactions of `ts` mint together.
pub open spec fn minted_all(ts: Seq<Transaction>) -> nat
    decreases ts.len(),
{
    if ts.len() == 0 {
        0
    } else {
        minted_all(ts.drop_last()) + minted(ts.last())
    }
}

/// Each of `ts` is carried by the book that the earlier ones leave.
pub open spec fn all_covered(s: Seq<BalanceEntry>, ts: Seq<Transaction>) -> bool {
    forall|i: int| 0 <= i < ts.len() ==> funds_cover(after_all(s, ts.take(i)), #[trigger] ts[i])
}

/// Balance conservation over a run of accepted transactions (each accepted
/// call of `append_transaction` applies `after_transaction` to a book that
/// covers it): the sum of balances grows by exactly what the coinbases among
/// them mint, and the book keeps one entry per account.
pub proof fn lemma_run_conserves(s: Seq<BalanceEntry>, ts: Seq<Transaction>)
    requires
        all_covered(s, ts),
    ensures
        total(after_all(s, ts)) == total(s) + minted_all(ts),
        keys_distinct(s) ==> keys_distinct(after_all(s, ts)),
    decreases ts.len(),
{
    if ts.len() > 0 {
        let init = ts.drop_last();
        assert forall|i: int| 0 <= i < init.len() implies funds_cover(
            after_all(s, init.take(i)),
            #[trigger] init[i],
        ) by {
            assert(init.take(i) =~= ts.take(i));
            assert(init[i] == ts[i]);
        }
        lemma_run_conserves(s, init);
        assert(ts.take(ts.len() - 1) =~= init);
        assert(funds_cover(after_all(s, ts.take(ts.len() - 1)), ts[ts.len() - 1]));
        lemma_transaction_conserves(after_all(s, init), ts.last());
    }
}

/// Idempotent peer registration: registering an address a second time
/// changes nothing, and an address that was not there enters exactly once.
pub proof fn lemma_register_peer_idempotent(p: Seq<String>, addr: String)
    ensures
        with_peer(with_peer(p, addr), addr) == with_peer(p, addr),
        !(exists|i: int| 0 <= i < p.len() && (#[trigger] p[i])@ == addr@) ==> with_peer(
            with_peer(p, addr),
            addr,
        ) == p.push(addr),
{
    let q = with_peer(p, addr);
    if !(exists|i: int| 0 <= i < p.len() && (#[trigger] p[i])@ == addr@) {
        assert(q[p.len() as int]@ == addr@);
    }
}

/// Chain validity against nonce tampering: replacing the nonce of block `i`
/// by one that breaks its own predicate or that of the block after it makes
/// the chain invalid, and putting the old nonce back makes it valid again.
pub proof fn lemma_nonce_tampering(c: Seq<Block>, i: int, n: u32)
    requires
        chain_valid(c),
        0 <= i < c.len(),
        !(nonce_ok(prev_nonce(c, i), n, opt_bytes_view(c[i].previous_hash)) && (i + 1 < c.len()
            ==> nonce_ok(n, c[i + 1].nonce, opt_bytes_view(c[i + 1].previous_hash)))),
    ensures
        !chain_valid(c.update(i, Block { nonce: n, ..c[i] })),
        c.update(i, Block { nonce: n, ..c[i] }).update(i, c[i]) == c,
{
    let t = c.update(i, Block { nonce: n, ..c[i] });
    if !nonce_ok(prev_nonce(c, i), n, opt_bytes_view(c[i].previous_hash)) {
        assert(!block_pow_ok(t, i));
    } else {
        assert(!block_pow_ok(t, i + 1));
    }
    assert(t.update(i, c[i]) =~= c);
}

/// The ledger of one node.
#[derive(Clone)]
pub struct Blockchain {
    /// Accepted transactions not yet sealed into a block, in arrival order.
    pub pending_transactions: Vec<Transaction>,
    pub chain: Vec<Block>,
    /// The node's own account, which receives its mining rewards.
    pub address: Option<Address>,
    /// Balances of every account seen in an accepted transaction.
    pub address_balances: Vec<BalanceEntry>,
    /// Addresses of known peers, each at most once.
    pub peers: Vec<String>,
}

impl Blockchain {
    /// The tracked balance of `k`; an unknown account holds nothing.
    pub open spec fn balance(self, k: PublicKey) -> nat {
        balance_in(self.address_balances@, k)
    }

    /// `append_transaction` accepts `t`: it verifies, a coinbase replays one
    /// that a block already holds, and the balances can carry it.
    pub open spec fn admits(self, t: Transaction) -> bool {
        &&& t.is_authentic()
        &&& (t.sender_addr is None ==> coinbase_in_chain(self.chain@, t))
        &&& funds_cover(self.address_balances@, t)
    }

    /// A ledger holding only the first block, which is the same for every
    /// chain (see `is_genesis_block`), with a fresh node account.
    pub fn new() -> (r: Blockchain)
        ensures
            r.pending_transactions@.len() == 0,
            r.address_balances@.len() == 0,
            r.peers@.len() == 0,
            r.address matches Some(a) && a.keys_belong() && a.funds() == 0,
            r.chain@.len() == 1,
            is_genesis_block(r.chain@[0]),
            (exists|n: u32| nonce_ok(GENESIS_PREV_NONCE, n, None)) ==> is_first_valid_nonce(
                GENESIS_PREV_NONCE,
                None,
                r.chain@[0].nonce,
            ),
            chain_valid(r.chain@) == exists|n: u32| nonce_ok(GENESIS_PREV_NONCE, n, None),
    {
        let mut blockchain = Blockchain {
            pending_transactions: Vec::new(),
            chain: Vec::new(),
            address: Some(Address::new()),
            address_balances: Vec::new(),
            peers: Vec::new(),
        };
        let genesis_block = blockchain.create_genesis_block();
        blockchain.chain.push(genesis_block);
        proof {
            let c = blockchain.chain@;
            if exists|n: u32| nonce_ok(GENESIS_PREV_NONCE, n, None) {
                assert(block_pow_ok(c, 0));
            } else {
                assert(!block_pow_ok(c, 0));
            }
        }
        blockchain
    }

    /// The first block: index 0, the conventional time, no transactions and
    /// no previous digest, a coinbase paying the all-zero key, and the least
    /// nonce admitted against the conventional previous nonce (0 when no
    /// 32-bit nonce is admitted). It does not depend on the ledger.
    pub fn create_genesis_block(&self) -> (r: Block)
        ensures
            is_genesis_block(r),
    {
        let coinbase_transaction = Transaction::create_coinbase_transaction(genesis_recipient());
        let previous_hash: Option<Vec<u8>> = None;
        let nonce = match Blockchain::find_nonce(GENESIS_PREV_NONCE, &previous_hash) {
            Some(n) => n,
            None => 0,
        };
        Block {
            ind: 0,
            timestamp: GENESIS_TIMESTAMP,
            transactions: Vec::new(),
            previous_hash,
            coinbase_transaction,
            nonce,
        }
    }

    /// Adds `addr` to the peers unless it is there already.
    pub fn register_peer(&mut self, addr: String)
        ensures
            final(self).peers@ == with_peer(old(self).peers@, addr),
            peers_distinct(old(self).peers@) ==> peers_distinct(final(self).peers@),
            final(self).pending_transactions == old(self).pending_transactions,
            final(self).chain == old(self).chain,
            final(self).address == old(self).address,
            final(self).address_balances == old(self).address_balances,
    {
        let mut i: usize = 0;
        while i < self.peers.len()
            invariant
                0 <= i <= self.peers@.len(),
                forall|j: int| 0 <= j < i ==> (#[trigger] self.peers@[j])@ != addr@,
            decreases self.peers@.len() - i,
        {
            if self.peers[i] == addr {
                return;
            }
            i = i + 1;
        }
        let ghost before = self.peers@;
        self.peers.push(addr);
        proof {
            if peers_distinct(before) {
                assert forall|a: int, b: int| 0 <= a < b < self.peers@.len() implies (
                #[trigger] self.peers@[a])@ != (#[trigger] self.peers@[b])@ by {
                    if b < before.len() {
                        assert(before[a] == self.peers@[a] && before[b] == self.peers@[b]);
                    }
                }
            }
        }
    }

    /// Accepts `transaction` when `admits` holds: debits its sender, credits
    /// its recipient (a coinbase only credits) and queues it. Otherwise
    /// nothing changes.
    pub fn append_transaction(&mut self, transaction: Transaction) -> (r: bool)
        ensures
            r == old(self).admits(transaction),
            transaction.sender_addr is None && !coinbase_in_chain(old(self).chain@, transaction)
                ==> !r,
            !r ==> *final(self) == *old(self),
            r ==> {
                &&& final(self).address_balances@ == after_transaction(
                    old(self).address_balances@,
                    transaction,
                )
                &&& final(self).pending_transactions@ == old(
                    self,
                ).pending_transactions@.push(transaction)
                &&& final(self).chain == old(self).chain
                &&& final(self).address == old(self).address
                &&& final(self).peers == old(self).peers
                &&& total(final(self).address_balances@) == total(old(self).address_balances@)
                    + minted(transaction)
            },
            keys_distinct(old(self).address_balances@) ==> keys_distinct(
                final(self).address_balances@,
            ),
    {
        if !transaction.verify_digest() {
            return false;
        }
        let ghost s = self.address_balances@;
        let recipient = transaction.recipient_addr;
        let value = transaction.value;
        match transaction.sender_addr {
            None => {
                let mut found = false;
                let mut i: usize = 0;
                while i < self.chain.len()
                    invariant
                        0 <= i <= self.chain@.len(),
                        found == exists|j: int|
                            0 <= j < i && same_transaction(
                                #[trigger] self.chain@[j].coinbase_transaction,
                                transaction,
                            ),
                    decreases self.chain@.len() - i,
                {
                    if transaction == self.chain[i].coinbase_transaction {
                        found = true;
                    }
                    i = i + 1;
                }
                if !found {
                    return false;
                }
                let held = get_balance(&self.address_balances, &recipient);
                if held > u32::MAX - value {
                    return false;
                }
                set_balance(&mut self.address_balances, recipient, held + value);
            },
            Some(sender) => {
                let available = get_balance(&self.address_balances, &sender);
                if available < value {
                    return false;
                }
                proof {
                    lemma_set_balance(s, sender, (available - value) as u32);
                }
                let held = if sender.same(&recipient) {
                    available - value
                } else {
                    get_balance(&self.address_balances, &recipient)
                };
                if held > u32::MAX - value {
                    return false;
                }
                set_balance(&mut self.address_balances, sender, available - value);
                set_balance(&mut self.address_balances, recipient, held + value);
            },
        }
        proof {
            lemma_transaction_conserves(s, transaction);
        }
        self.pending_transactions.push(transaction);
        true
    }

    /// Seals the pending transactions into a new block with the given nonce
    /// and a fresh coinbase paying `reward_addr`, linked to `previous_hash`
    /// when given, else to the digest of the last block; empties the pool.
    pub fn append_block(&mut self, nonce: u32, previous_hash: Option<Vec<u8>>, reward_addr: PublicKey)
        requires
            previous_hash is Some || old(self).chain@.len() > 0,
        ensures
            final(self).chain@.len() == old(self).chain@.len() + 1,
            final(self).chain@.drop_last() == old(self).chain@,
            ({
                let b = final(self).chain@.last();
                &&& b.ind == old(self).chain@.len()
                &&& b.transactions@ == old(self).pending_transactions@
                &&& b.nonce == nonce
                &&& b.coinbase_transaction.sender_addr is None
                &&& b.coinbase_transaction.recipient_addr == reward_addr
                &&& b.coinbase_transaction.value == BLOCK_REWARD
                &&& b.coinbase_transaction.signed_digest is None
                &&& opt_bytes_view(b.previous_hash) == match previous_hash {
                    Some(d) => Some(d@),
                    None => Some(old(self).chain@.last().digest()),
                }
            }),
            final(self).pending_transactions@.len() == 0,
            final(self).address == old(self).address,
            final(self).address_balances == old(self).address_balances,
            final(self).peers == old(self).peers,
    {
        let coinbase_transaction = Transaction::create_coinbase_transaction(reward_addr);
        let previous_hash = match previous_hash {
            Some(digest) => Some(digest),
            None => {
                let last = self.chain.len() - 1;
                Some(self.chain[last].hash())
            },
        };
        let mut transactions: Vec<Transaction> = Vec::new();
        std::mem::swap(&mut transactions, &mut self.pending_transactions);
        let new_block = Block {
            ind: self.chain.len(),
            timestamp: now_millis(),
            transactions,
            previous_hash,
            coinbase_transaction,
            nonce,
        };
        self.chain.push(new_block);
        proof {
            assert(self.chain@.drop_last() =~= old(self).chain@);
        }
    }

    /// Whether `current` is admitted after a block with nonce `last`, when the
    /// new block links to `prev_digest`. The predicate ignores the block's own
    /// content.
    pub fn is_valid_nonce(last: u32, current: u32, prev_digest: &Option<Vec<u8>>) -> (r: bool)
        ensures
            r == nonce_ok(last, current, opt_bytes_view(*prev_digest)),
    {
        let serialized = encode_pow_input(last, current, prev_digest);
        let digest = sha256(serialized.as_slice());
        digest[0] == 0 && digest[1] == 0
    }

    /// The least admitted nonce, trying 0, 1, 2, ... in turn; nothing when no
    /// 32-bit nonce is admitted.
    pub fn find_nonce(previous_nonce: u32, previous_hash: &Option<Vec<u8>>) -> (r: Option<u32>)
        ensures
            match r {
                Some(n) => is_first_valid_nonce(previous_nonce, opt_bytes_view(*previous_hash), n),
                None => forall|m: u32|
                    !#[trigger] nonce_ok(previous_nonce, m, opt_bytes_view(*previous_hash)),
            },
    {
        let mut nonce: u32 = 0;
        loop
            invariant
                forall|m: u32|
                    m < nonce ==> !#[trigger] nonce_ok(
                        previous_nonce,
                        m,
                        opt_bytes_view(*previous_hash),
                    ),
            decreases u32::MAX - nonce,
        {
            if Blockchain::is_valid_nonce(previous_nonce, nonce, previous_hash) {
                return Some(nonce);
            }
            if nonce == u32::MAX {
                return None;
            }
            nonce = nonce + 1;
        }
    }

    /// Checks every block's nonce: see `chain_valid`.
    pub fn is_valid_chain(&self) -> (r: bool)
        ensures
            r == chain_valid(self.chain@),
    {
        let mut i: usize = 0;
        while i < self.chain.len()
            invariant
                0 <= i <= self.chain@.len(),
                forall|j: int| 0 <= j < i ==> #[trigger] block_pow_ok(self.chain@, j),
            decreases self.chain@.len() - i,
        {
            let previous_nonce = if i == 0 {
                GENESIS_PREV_NONCE
            } else {
                self.chain[i - 1].nonce
            };
            let block = &self.chain[i];
            if !Blockchain::is_valid_nonce(previous_nonce, block.nonce, &block.previous_hash) {
                assert(!block_pow_ok(self.chain@, i as int));
                return false;
            }
            i = i + 1;
        }
        true
    }

    /// A transfer of `value` from the node's own account to `recipient_addr`,
    /// submitted to this ledger: signed by a copy of the node's account (whose
    /// local balance stays as it is), then appended. The transaction when both
    /// steps succeed; otherwise nothing, and nothing changes.
    pub fn new_transaction_from_node(&mut self, value: u32, recipient_addr: PublicKey) -> (r:
        Option<Transaction>)
        ensures
            r is None ==> *final(self) == *old(self),
            old(self).address is None ==> r is None,
            old(self).address matches Some(a) && a.funds() < value ==> r is None,
            old(self).address matches Some(a) && value <= a.funds() && a.keys_belong() ==> (r
                is Some <==> funds_cover(
                old(self).address_balances@,
                Transaction {
                    sender_addr: Some(old(self).address->Some_0.key()),
                    recipient_addr,
                    value,
                    signed_digest: None,
                },
            )),
            r matches Some(t) ==> {
                &&& old(self).address matches Some(a)
                &&& t.sender_addr == Some(a.key())
                &&& t.recipient_addr == recipient_addr
                &&& t.value == value
                &&& t.signed_with(a.signing_bytes())
                &&& old(self).admits(t)
                &&& final(self).address_balances@ == after_transaction(
                    old(self).address_balances@,
                    t,
                )
                &&& final(self).pending_transactions@.len() == old(
                    self,
                ).pending_transactions@.len() + 1
                &&& final(self).pending_transactions@.drop_last() == old(
                    self,
                ).pending_transactions@
                &&& same_transaction(final(self).pending_transactions@.last(), t)
                &&& final(self).chain == old(self).chain
                &&& final(self).address == old(self).address
                &&& final(self).peers == old(self).peers
            },
    {
        let mut node_addr = match self.address {
            Some(a) => a,
            None => {
                return None;
            },
        };
        let transaction = match node_addr.new_transaction(value, recipient_addr) {
            Some(t) => t,
            None => {
                return None;
            },
        };
        let kept = transaction.duplicate();
        if !self.append_transaction(transaction) {
            return None;
        }
        proof {
            assert(self.pending_transactions@.drop_last() =~= old(self).pending_transactions@);
        }
        Some(kept)
    }

    /// The tracked balance of `k`; an unknown account holds nothing.
    pub fn balance_of(&self, k: &PublicKey) -> (r: u32)
        ensures
            r as nat == self.balance(*k),
    {
        get_balance(&self.address_balances, k)
    }

    /// The nonce of the last block.
    pub fn get_last_nonce(&self) -> (r: u32)
        requires
            self.chain@.len() > 0,
        ensures
            r == self.chain@.last().nonce,
    {
        self.chain[self.chain.len() - 1].nonce
    }
}

} // verus!
