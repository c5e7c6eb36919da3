//! The per-account balance book: a list of (key, balance) entries, where the
//! last entry for a key is the one that counts.

use vstd::prelude::*;
use crate::crypto::PublicKey;

verus! {

pub type BalanceEntry = (PublicKey, u32);

/// The position of the last entry for `k`, or -1 when there is none.
pub open spec fn last_index(s: Seq<BalanceEntry>, k: PublicKey) -> int
    decreases s.len(),
{
    if s.len() == 0 {
        -1
    } else if s.last().0 == k {
        s.len() - 1
    } else {
        last_index(s.drop_last(), k)
    }
}

/// The tracked balance of `k`, if `k` is known.
pub open spec fn lookup(s: Seq<BalanceEntry>, k: PublicKey) -> Option<u32> {
    let i = last_index(s, k);
    if 0 <= i { Some(s[i].1) } else { None }
}

/// The balance of `k`: an unknown key holds nothing.
pub open spec fn balance_in(s: Seq<BalanceEntry>, k: PublicKey) -> nat {
    match lookup(s, k) {
        Some(v) => v as nat,
        None => 0,
    }
}

/// The book after setting the balance of `k` to `v`.
pub open spec fn set_balance_spec(s: Seq<BalanceEntry>, k: PublicKey, v: u32) -> Seq<
    BalanceEntry,
> {
    let i = last_index(s, k);
    if 0 <= i { s.update(i, (k, v)) } else { s.push((k, v)) }
}

/// No key has two entries; then `total` is the sum over accounts.
pub open spec fn keys_distinct(s: Seq<BalanceEntry>) -> bool {
    forall|i: int, j: int| 0 <= i < j < s.len() ==> (#[trigger] s[i]).0 != (#[trigger] s[j]).0
}

/// The sum of all entries.
pub open spec fn total(s: Seq<BalanceEntry>) -> nat
    decreases s.len(),
{
    if s.len() == 0 {
        0
    } else {
        total(s.drop_last()) + s.last().1 as nat
    }
}

pub proof fn lemma_last_index_bounds(s: Seq<BalanceEntry>, k: PublicKey)
    ensures
        -1 <= last_index(s, k) < s.len(),
        0 <= last_index(s, k) ==> s[last_index(s, k)].0 == k,
        last_index(s, k) == -1 ==> forall|j: int| 0 <= j < s.len() ==> s[j].0 != k,
    decreases s.len(),
{
    if s.len() > 0 {
        lemma_last_index_bounds(s.drop_last(), k);
        if s.last().0 != k && last_index(s, k) == -1 {
            assert forall|j: int| 0 <= j < s.len() implies s[j].0 != k by {
                if j < s.len() - 1 {
                    assert(s.drop_last()[j] == s[j]);
                }
            }
        }
    }
}

/// Books with the same keys in the same places locate every key alike.
pub proof fn lemma_last_index_same_keys(s1: Seq<BalanceEntry>, s2: Seq<BalanceEntry>, k: PublicKey)
    requires
        s1.len() == s2.len(),
        forall|j: int| 0 <= j < s1.len() ==> s1[j].0 == s2[j].0,
    ensures
        last_index(s1, k) == last_index(s2, k),
    decreases s1.len(),
{
    if s1.len() > 0 {
        lemma_last_index_same_keys(s1.drop_last(), s2.drop_last(), k);
    }
}

pub proof fn lemma_total_update(s: Seq<BalanceEntry>, i: int, e: BalanceEntry)
    requires
        0 <= i < s.len(),
    ensures
        total(s.update(i, e)) + s[i].1 == total(s) + e.1,
    decreases s.len(),
{
    let u = s.update(i, e);
    if i == s.len() - 1 {
        assert(u.drop_last() =~= s.drop_last());
    } else {
        lemma_total_update(s.drop_last(), i, e);
        assert(u.drop_last() =~= s.drop_last().update(i, e));
    }
}

/// Setting a balance changes that key alone, and the sum by the difference.
pub proof fn lemma_set_balance(s: Seq<BalanceEntry>, k: PublicKey, v: u32)
    ensures
        forall|k2: PublicKey|
            #[trigger] lookup(set_balance_spec(s, k, v), k2) == if k2 == k {
                Some(v)
            } else {
                lookup(s, k2)
            },
        total(set_balance_spec(s, k, v)) + balance_in(s, k) == total(s) + v,
        keys_distinct(s) ==> keys_distinct(set_balance_spec(s, k, v)),
{
    let i = last_index(s, k);
    let t = set_balance_spec(s, k, v);
    lemma_last_index_bounds(s, k);
    if 0 <= i {
        assert forall|k2: PublicKey|
            #[trigger] lookup(t, k2) == if k2 == k { Some(v) } else { lookup(s, k2) } by {
            lemma_last_index_same_keys(t, s, k2);
            lemma_last_index_bounds(s, k2);
        }
        lemma_total_update(s, i, (k, v));
        if keys_distinct(s) {
            assert forall|a: int, b: int| 0 <= a < b < t.len() implies (#[trigger] t[a]).0 != (
            #[trigger] t[b]).0 by {
                assert(t[a].0 == s[a].0 && t[b].0 == s[b].0);
            }
        }
    } else {
        assert(t.drop_last() =~= s);
        if keys_distinct(s) {
            assert forall|a: int, b: int| 0 <= a < b < t.len() implies (#[trigger] t[a]).0 != (
            #[trigger] t[b]).0 by {
                if b < s.len() {
                    assert(t[a] == s[a] && t[b] == s[b]);
                }
            }
        }
        assert forall|k2: PublicKey|
            #[trigger] lookup(t, k2) == if k2 == k { Some(v) } else { lookup(s, k2) } by {
            lemma_last_index_bounds(s, k2);
        }
    }
}

/// The position of the last entry for `k`.
pub fn find_entry(entries: &Vec<BalanceEntry>, k: &PublicKey) -> (r: Option<usize>)
    ensures
        match r {
            Some(i) => i < entries@.len() && i as int == last_index(entries@, *k),
            None => last_index(entries@, *k) == -1,
        },
{
    let mut found: Option<usize> = None;
    let mut i: usize = 0;
    while i < entries.len()
        invariant
            0 <= i <= entries@.len(),
            match found {
                Some(j) => j as int == last_index(entries@.subrange(0, i as int), *k),
                None => last_index(entries@.subrange(0, i as int), *k) == -1,
            },
        decreases entries@.len() - i,
    {
        let ghost before = entries@.subrange(0, i as int);
        assert(entries@.subrange(0, i + 1).drop_last() =~= before);
        if entries[i].0.same(k) {
            found = Some(i);
        }
        i = i + 1;
    }
    assert(entries@.subrange(0, entries@.len() as int) =~= entries@);
    proof {
        lemma_last_index_bounds(entries@, *k);
    }
    found
}

/// The balance of `k`; an unknown key holds nothing.
pub fn get_balance(entries: &Vec<BalanceEntry>, k: &PublicKey) -> (r: u32)
    ensures
        r as nat == balance_in(entries@, *k),
{
    match find_entry(entries, k) {
        Some(i) => entries[i].1,
        None => 0,
    }
}

/// Sets the balance of `k` to `v`, adding an entry for a new key.
pub fn set_balance(entries: &mut Vec<BalanceEntry>, k: PublicKey, v: u32)
    ensures
        final(entries)@ == set_balance_spec(old(entries)@, k, v),
{
    match find_entry(entries, &k) {
        Some(i) => {
            entries.set(i, (k, v));
        },
        None => {
            entries.push((k, v));
        },
    }
}

} // verus!
