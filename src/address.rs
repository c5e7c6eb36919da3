//! Accounts: a signing keypair and a locally tracked balance.

use vstd::prelude::*;
use crate::crypto::{gen_keypair, keys_match, PrivateKey, PublicKey};
use crate::transaction::{lemma_signed_transfer_verifies, Transaction};

verus! {

/// An account that can authorize transfers out of it. Its signing key stays
/// inside: the account only uses it to sign its own transfers.
#[derive(Clone, Copy)]
pub struct Address {
    pub public_key: PublicKey,
    private_key: PrivateKey,
    pub balance: u32,
}

impl Address {
    /// The account's identifier.
    pub closed spec fn key(self) -> PublicKey {
        self.public_key
    }

    /// The locally tracked balance.
    pub closed spec fn funds(self) -> u32 {
        self.balance
    }

    /// The bytes of the signing key.
    pub closed spec fn signing_bytes(self) -> Seq<u8> {
        self.private_key.key_bytes()
    }

    /// The public key is the one that belongs to the signing key.
    pub closed spec fn keys_belong(self) -> bool {
        keys_match(self.public_key.key_bytes(), self.private_key.key_bytes())
    }

    /// A fresh account with a new keypair and a zero balance.
    pub fn new() -> (r: Address)
        ensures
            r.keys_belong(),
            r.funds() == 0,
    {
        let (public_key, private_key) = gen_keypair();
        Address { public_key, private_key, balance: 0 }
    }

    /// The account's identifier.
    pub fn get_public_key(&self) -> (r: PublicKey)
        ensures
            r == self.key(),
    {
        self.public_key
    }

    /// The locally tracked balance.
    pub fn get_balance(&self) -> (r: u32)
        ensures
            r == self.funds(),
    {
        self.balance
    }

    /// A signed transfer of `value` to `recipient_addr`, when the local
    /// balance covers it; the local balance is then lowered by `value`.
    /// Otherwise nothing, and nothing changes.
    pub fn new_transaction(&mut self, value: u32, recipient_addr: PublicKey) -> (r: Option<
        Transaction,
    >)
        ensures
            r.is_some() == (value <= old(self).funds()),
            r.is_none() ==> *final(self) == *old(self),
            r matches Some(t) ==> {
                &&& final(self).funds() == old(self).funds() - value
                &&& final(self).key() == old(self).key()
                &&& final(self).signing_bytes() == old(self).signing_bytes()
                &&& final(self).keys_belong() == old(self).keys_belong()
                &&& t.sender_addr == Some(old(self).key())
                &&& t.recipient_addr == recipient_addr
                &&& t.value == value
                &&& t.signed_with(old(self).signing_bytes())
                &&& (old(self).keys_belong() ==> t.is_authentic())
            },
    {
        if self.balance < value {
            return None;
        }
        let mut transaction = Transaction::new(Some(self.public_key), recipient_addr, value);
        transaction.sign(&self.private_key);
        self.balance = self.balance - value;
        proof {
            if self.keys_belong() {
                lemma_signed_transfer_verifies(transaction, self.public_key, self.private_key);
            }
        }
        Some(transaction)
    }
}

} // verus!
