//! Keys, digests and signatures, backed by libsodium through `sodiumoxide`.

use vstd::prelude::*;

verus! {

/// An Ed25519 verification key: the identifier of an account.
#[derive(Clone, Copy, Debug)]
pub struct PublicKey {
    pub bytes: [u8; 32],
}

/// An Ed25519 signing key in libsodium's 64-byte layout.
#[derive(Clone, Copy)]
pub struct PrivateKey {
    bytes: [u8; 64],
}

impl PublicKey {
    /// The key's bytes as a sequence.
    pub open spec fn key_bytes(self) -> Seq<u8> {
        self.bytes@
    }
}

impl PartialEq for PublicKey {
    fn eq(&self, other: &PublicKey) -> (r: bool) {
        let mut i: usize = 0;
        while i < 32
            invariant
                0 <= i <= 32,
                self.bytes@.len() == 32,
                other.bytes@.len() == 32,
                forall|j: int| 0 <= j < i ==> self.bytes@[j] == other.bytes@[j],
            decreases 32 - i,
        {
            if self.bytes[i] != other.bytes[i] {
                return false;
            }
            i = i + 1;
        }
        proof {
            assert(self.bytes@ =~= other.bytes@);
        }
        true
    }
}

impl vstd::std_specs::cmp::PartialEqSpecImpl for PublicKey {
    open spec fn obeys_eq_spec() -> bool {
        true
    }

    open spec fn eq_spec(&self, other: &PublicKey) -> bool {
        self.bytes@ == other.bytes@
    }
}

impl Eq for PublicKey {}

impl PublicKey {
    /// Compares two keys.
    pub fn same(&self, other: &PublicKey) -> (r: bool)
        ensures
            r == (*self == *other),
    {
        let r = *self == *other;
        proof {
            if self.bytes@ == other.bytes@ {
                assert(self.bytes =~= other.bytes);
            }
        }
        r
    }
}

impl PrivateKey {
    /// The key's bytes as a sequence.
    pub closed spec fn key_bytes(self) -> Seq<u8> {
        self.bytes@
    }

    /// Wraps the 64 bytes of a signing key.
    pub fn from_bytes(bytes: [u8; 64]) -> (r: PrivateKey)
        ensures
            r.key_bytes() == bytes@,
    {
        PrivateKey { bytes }
    }
}

/// The SHA-256 digest of a byte string.
pub uninterp spec fn sha256_of(m: Seq<u8>) -> Seq<u8>;

/// Relies on sodiumoxide's `hash::sha256::hash`: a 32-byte digest that
/// depends on the message alone.
#[verifier::external_body]
pub(crate) fn sha256(m: &[u8]) -> (r: Vec<u8>)
    ensures
        r@ == sha256_of(m@),
        r@.len() == 32,
{
    let sodiumoxide::crypto::hash::sha256::Digest(d) = sodiumoxide::crypto::hash::sha256::hash(m);
    d.to_vec()
}

/// The signed message that Ed25519 makes of `m` under the signing key `sk`.
pub uninterp spec fn ed25519_signed(m: Seq<u8>, sk: Seq<u8>) -> Seq<u8>;

/// What opening the signed message `sm` under the verification key `pk`
/// gives: the message when the signature holds, nothing otherwise.
pub uninterp spec fn ed25519_opened(sm: Seq<u8>, pk: Seq<u8>) -> Option<Seq<u8>>;

/// The two keys belong together: whatever the signing key signs, the
/// verification key opens to the same message.
pub open spec fn keys_match(pk: Seq<u8>, sk: Seq<u8>) -> bool {
    forall|m: Seq<u8>| #[trigger] ed25519_opened(ed25519_signed(m, sk), pk) == Some(m)
}

/// The bytes of an optional byte vector.
pub open spec fn opt_bytes_view(o: Option<Vec<u8>>) -> Option<Seq<u8>> {
    match o {
        Some(v) => Some(v@),
        None => None,
    }
}

/// Relies on sodiumoxide's `sign::gen_keypair`: a fresh random signing key
/// and the verification key that corresponds to it.
#[verifier::external_body]
fn ed25519_keypair() -> (r: ([u8; 32], [u8; 64]))
    ensures
        keys_match(r.0@, r.1@),
{
    let (pk, sk) = sodiumoxide::crypto::sign::gen_keypair();
    (pk.0, sk.0)
}

/// Generates a fresh keypair; the two halves belong together.
pub fn gen_keypair() -> (r: (PublicKey, PrivateKey))
    ensures
        keys_match(r.0.key_bytes(), r.1.key_bytes()),
{
    let (pk, sk) = ed25519_keypair();
    (PublicKey { bytes: pk }, PrivateKey { bytes: sk })
}

/// Relies on sodiumoxide's `sign::sign`: the signed message, which depends on
/// the message and the key alone (Ed25519 signing is deterministic).
#[verifier::external_body]
fn ed25519_sign(m: &[u8], sk: &[u8; 64]) -> (r: Vec<u8>)
    ensures
        r@ == ed25519_signed(m@, sk@),
{
    sodiumoxide::crypto::sign::sign(m, &sodiumoxide::crypto::sign::SecretKey(*sk))
}

/// Relies on sodiumoxide's `sign::verify`: `Ok` with the message when the
/// signature holds under `pk`, `Err` otherwise.
#[verifier::external_body]
fn ed25519_open(sm: &[u8], pk: &[u8; 32]) -> (r: Option<Vec<u8>>)
    ensures
        opt_bytes_view(r) == ed25519_opened(sm@, pk@),
{
    sodiumoxide::crypto::sign::verify(sm, &sodiumoxide::crypto::sign::PublicKey(*pk)).ok()
}

impl PrivateKey {
    /// Signs `m`.
    pub fn sign_bytes(&self, m: &[u8]) -> (r: Vec<u8>)
        ensures
            r@ == ed25519_signed(m@, self.key_bytes()),
    {
        ed25519_sign(m, &self.bytes)
    }
}

impl PublicKey {
    /// Opens the signed message `sm`: the message when its signature holds
    /// under this key.
    pub fn open_bytes(&self, sm: &[u8]) -> (r: Option<Vec<u8>>)
        ensures
            opt_bytes_view(r) == ed25519_opened(sm@, self.key_bytes()),
    {
        ed25519_open(sm, &self.bytes)
    }
}

} // verus!
