//! Value-transfer transactions, their signing and their verification.

use vstd::prelude::*;
use crate::crypto::{
    ed25519_opened, ed25519_signed, keys_match, opt_bytes_view, sha256, sha256_of, PrivateKey,
    PublicKey,
};
use crate::encoding::{encode_fields, fields_bytes, TransactionFields};

verus! {

/// The value that a coinbase transaction mints.
pub const BLOCK_REWARD: u32 = 1;

/// A transfer of `value` from `sender_addr` to `recipient_addr`. A transaction
/// without a sender is a coinbase: it mints the block reward.
#[derive(Clone, Debug)]
pub struct Transaction {
    pub sender_addr: Option<PublicKey>,
    pub recipient_addr: PublicKey,
    pub value: u32,
    /// The signed digest of the content; absent until signed.
    pub signed_digest: Option<Vec<u8>>,
}

/// `a` and `b` hold the same bytes.
pub fn bytes_equal(a: &[u8], b: &[u8]) -> (r: bool)
    ensures
        r == (a@ == b@),
{
    if a.len() != b.len() {
        return false;
    }
    let mut i: usize = 0;
    while i < a.len()
        invariant
            0 <= i <= a@.len(),
            a@.len() == b@.len(),
            forall|j: int| 0 <= j < i ==> a@[j] == b@[j],
        decreases a@.len() - i,
    {
        if a[i] != b[i] {
            return false;
        }
        i = i + 1;
    }
    proof {
        assert(a@ =~= b@);
    }
    true
}

/// The bytes of a key, if there is one.
pub open spec fn opt_key_view(k: Option<PublicKey>) -> Option<[u8; 32]> {
    match k {
        Some(p) => Some(p.bytes),
        None => None,
    }
}

impl Transaction {
    /// What the signature covers: every field but the signature itself.
    pub open spec fn content(self) -> TransactionFields {
        (opt_key_view(self.sender_addr), self.recipient_addr.bytes, self.value)
    }

    /// The digest that is signed and checked.
    pub open spec fn digest(self) -> Seq<u8> {
        sha256_of(fields_bytes(self.content()))
    }

    /// A coinbase carries no sender and needs no signature; a transfer is
    /// authentic when its signed digest opens, under the sender's key, to
    /// exactly the digest of its content.
    pub open spec fn is_authentic(self) -> bool {
        match self.sender_addr {
            None => true,
            Some(pk) => match self.signed_digest {
                None => false,
                Some(tag) => ed25519_opened(tag@, pk.key_bytes()) == Some(self.digest()),
            },
        }
    }

    /// `self` with its signature made by the signing key `sk`.
    pub open spec fn signed_with(self, sk: Seq<u8>) -> bool {
        opt_bytes_view(self.signed_digest) == Some(ed25519_signed(self.digest(), sk))
    }

    /// An unsigned transaction.
    pub fn new(sender_addr: Option<PublicKey>, recipient_addr: PublicKey, value: u32) -> (r:
        Transaction)
        ensures
            r.sender_addr == sender_addr,
            r.recipient_addr == recipient_addr,
            r.value == value,
            r.signed_digest.is_none(),
    {
        Transaction { sender_addr, recipient_addr, value, signed_digest: None }
    }

    /// The signed content as a plain tuple.
    pub fn fields(&self) -> (r: TransactionFields)
        ensures
            r == self.content(),
    {
        let sender = match &self.sender_addr {
            Some(k) => Some(k.bytes),
            None => None,
        };
        (sender, self.recipient_addr.bytes, self.value)
    }

    /// The digest of the content.
    pub fn compute_digest(&self) -> (r: Vec<u8>)
        ensures
            r@ == self.digest(),
            r@.len() == 32,
    {
        let serialized = encode_fields(&self.fields());
        sha256(serialized.as_slice())
    }

    /// Signs the content with `signing_key`, replacing any earlier signature.
    pub fn sign(&mut self, signing_key: &PrivateKey)
        ensures
            final(self).content() == old(self).content(),
            final(self).signed_with(signing_key.key_bytes()),
    {
        let digest = self.compute_digest();
        let signed_digest = signing_key.sign_bytes(digest.as_slice());
        self.signed_digest = Some(signed_digest);
    }

    /// Checks the signature: see `is_authentic`.
    pub fn verify_digest(&self) -> (r: bool)
        ensures
            r == self.is_authentic(),
    {
        match &self.sender_addr {
            None => true,
            Some(pk) => match &self.signed_digest {
                None => false,
                Some(tag) => {
                    let digest = self.compute_digest();
                    match pk.open_bytes(tag.as_slice()) {
                        Some(verified) => bytes_equal(digest.as_slice(), verified.as_slice()),
                        None => false,
                    }
                },
            },
        }
    }

    /// A copy with the same fields and signature.
    pub fn duplicate(&self) -> (r: Transaction)
        ensures
            same_transaction(r, *self),
    {
        let signed_digest = match &self.signed_digest {
            Some(tag) => {
                let mut copy: Vec<u8> = Vec::new();
                let mut i: usize = 0;
                while i < tag.len()
                    invariant
                        0 <= i <= tag@.len(),
                        copy@ == tag@.subrange(0, i as int),
                    decreases tag@.len() - i,
                {
                    copy.push(tag[i]);
                    i = i + 1;
                }
                assert(copy@ =~= tag@);
                Some(copy)
            },
            None => None,
        };
        Transaction {
            sender_addr: self.sender_addr,
            recipient_addr: self.recipient_addr,
            value: self.value,
            signed_digest,
        }
    }

    /// The unsigned coinbase that pays the block reward to `recipient_addr`.
    pub fn create_coinbase_transaction(recipient_addr: PublicKey) -> (r: Transaction)
        ensures
            r.sender_addr.is_none(),
            r.recipient_addr == recipient_addr,
            r.value == BLOCK_REWARD,
            r.signed_digest.is_none(),
    {
        Transaction::new(None, recipient_addr, BLOCK_REWARD)
    }
}

/// Structural equality over sender, recipient, value and signature.
pub open spec fn same_transaction(a: Transaction, b: Transaction) -> bool {
    &&& a.sender_addr == b.sender_addr
    &&& a.recipient_addr == b.recipient_addr
    &&& a.value == b.value
    &&& opt_bytes_view(a.signed_digest) == opt_bytes_view(b.signed_digest)
}

impl PartialEq for Transaction {
    fn eq(&self, other: &Transaction) -> (r: bool) {
        let same_sender = match (&self.sender_addr, &other.sender_addr) {
            (Some(a), Some(b)) => bytes_equal(&a.bytes, &b.bytes),
            (None, None) => true,
            _ => false,
        };
        let same_tag = match (&self.signed_digest, &other.signed_digest) {
            (Some(a), Some(b)) => bytes_equal(a.as_slice(), b.as_slice()),
            (None, None) => true,
            _ => false,
        };
        let r = same_sender && bytes_equal(&self.recipient_addr.bytes, &other.recipient_addr.bytes)
            && self.value == other.value && same_tag;
        proof {
            assert(r == same_transaction(*self, *other)) by {
                if let (Some(a), Some(b)) = (self.sender_addr, other.sender_addr) {
                    if a.bytes@ == b.bytes@ {
                        assert(a.bytes =~= b.bytes);
                    }
                }
                if self.recipient_addr.bytes@ == other.recipient_addr.bytes@ {
                    assert(self.recipient_addr.bytes =~= other.recipient_addr.bytes);
                }
            }
        }
        r
    }
}

impl vstd::std_specs::cmp::PartialEqSpecImpl for Transaction {
    open spec fn obeys_eq_spec() -> bool {
        true
    }

    open spec fn eq_spec(&self, other: &Transaction) -> bool {
        same_transaction(*self, *other)
    }
}

/// Signature completeness: a transfer from `pk`, signed with a signing key
/// that belongs to `pk`, verifies.
pub proof fn lemma_signed_transfer_verifies(t: Transaction, pk: PublicKey, sk: PrivateKey)
    requires
        keys_match(pk.key_bytes(), sk.key_bytes()),
        t.sender_addr == Some(pk),
        t.signed_with(sk.key_bytes()),
    ensures
        t.is_authentic(),
{
    assert(ed25519_opened(ed25519_signed(t.digest(), sk.key_bytes()), pk.key_bytes()) == Some(
        t.digest(),
    ));
}

} // verus!
