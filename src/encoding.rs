//! The canonical byte encoding that digests are computed over: bincode's
//! default layout (fixed-width little-endian integers, `u64` lengths, a one
//! byte tag for `Option`, fields in order).

use vstd::prelude::*;

verus! {

/// The content of a transaction that its signature covers: sender, recipient
/// and value, with keys as raw bytes.
pub type TransactionFields = (Option<[u8; 32]>, [u8; 32], u32);

/// `n` as `width` little-endian bytes (taken modulo 256 to the `width`).
pub open spec fn le_bytes(n: nat, width: nat) -> Seq<u8>
    decreases width,
{
    if width == 0 {
        Seq::empty()
    } else {
        seq![(n % 256) as u8] + le_bytes(n / 256, (width - 1) as nat)
    }
}

pub open spec fn u32_bytes(n: u32) -> Seq<u8> {
    le_bytes(n as nat, 4)
}

pub open spec fn u64_bytes(n: u64) -> Seq<u8> {
    le_bytes(n as nat, 8)
}

/// Two's complement, little-endian.
pub open spec fn i64_bytes(n: i64) -> Seq<u8> {
    le_bytes((if n < 0 { n + 0x1_0000_0000_0000_0000 } else { n as int }) as nat, 8)
}

/// A length prefix, as bincode writes it before a sequence.
pub open spec fn len_bytes(n: nat) -> Seq<u8> {
    le_bytes(n, 8)
}

pub open spec fn opt_key_bytes(o: Option<[u8; 32]>) -> Seq<u8> {
    match o {
        None => seq![0u8],
        Some(k) => seq![1u8] + k@,
    }
}

pub open spec fn opt_vec_bytes(o: Option<Seq<u8>>) -> Seq<u8> {
    match o {
        None => seq![0u8],
        Some(v) => seq![1u8] + len_bytes(v.len()) + v,
    }
}

pub open spec fn fields_bytes(t: TransactionFields) -> Seq<u8> {
    opt_key_bytes(t.0) + t.1@ + u32_bytes(t.2)
}

/// The encodings of the items of `s`, one after another.
pub open spec fn fields_concat(s: Seq<TransactionFields>) -> Seq<u8>
    decreases s.len(),
{
    if s.len() == 0 {
        Seq::empty()
    } else {
        fields_concat(s.drop_last()) + fields_bytes(s.last())
    }
}

pub open spec fn fields_seq_bytes(s: Seq<TransactionFields>) -> Seq<u8> {
    len_bytes(s.len()) + fields_concat(s)
}

/// The bytes that the proof-of-work predicate hashes.
pub open spec fn pow_input_bytes(last: u32, current: u32, prev: Option<Seq<u8>>) -> Seq<u8> {
    u32_bytes(last) + u32_bytes(current) + opt_vec_bytes(prev)
}

/// The bytes of a block's committed content.
pub open spec fn block_content_bytes(
    index: u64,
    timestamp: i64,
    transactions: Seq<TransactionFields>,
    prev: Option<Seq<u8>>,
    coinbase: TransactionFields,
) -> Seq<u8> {
    u64_bytes(index) + i64_bytes(timestamp) + fields_seq_bytes(transactions) + opt_vec_bytes(prev)
        + fields_bytes(coinbase)
}

/// Relies on `bincode::serialize` of a `(Option<[u8; 32]>, [u8; 32], u32)`
/// tuple: the option tag, the 32 raw key bytes (arrays carry no length), the
/// value in four little-endian bytes. It cannot fail without a size limit.
#[verifier::external_body]
pub(crate) fn encode_fields(t: &TransactionFields) -> (r: Vec<u8>)
    ensures
        r@ == fields_bytes(*t),
{
    bincode::serialize(t).unwrap()
}

/// Relies on `bincode::serialize` of a `(u32, u32, &Option<Vec<u8>>)` tuple.
#[verifier::external_body]
pub(crate) fn encode_pow_input(last: u32, current: u32, prev: &Option<Vec<u8>>) -> (r: Vec<u8>)
    ensures
        r@ == pow_input_bytes(last, current, crate::crypto::opt_bytes_view(*prev)),
{
    bincode::serialize(&(last, current, prev)).unwrap()
}

/// Relies on `bincode::serialize` of a block's content tuple
/// `(u64, i64, &Vec<fields>, &Option<Vec<u8>>, &fields)`.
#[verifier::external_body]
pub(crate) fn encode_block_content(
    index: u64,
    timestamp: i64,
    transactions: &Vec<TransactionFields>,
    prev: &Option<Vec<u8>>,
    coinbase: &TransactionFields,
) -> (r: Vec<u8>)
    ensures
        r@ == block_content_bytes(
            index,
            timestamp,
            transactions@,
            crate::crypto::opt_bytes_view(*prev),
            *coinbase,
        ),
{
    bincode::serialize(&(index, timestamp, transactions, prev, coinbase)).unwrap()
}

} // verus!
