//! Association tables keyed by player address.
//!
//! Commitments and revealed moves are held as vectors of pairs whose keys
//! are pairwise distinct; contracts speak about keys and the entries behind
//! them.

use vstd::prelude::*;

use crate::addrs::distinct_seq;

verus! {

/// No key occurs twice.
pub open spec fn keys_distinct<V>(s: Seq<(u64, V)>) -> bool {
    forall|i: int, j: int| 0 <= i < j < s.len() ==> s[i].0 != s[j].0
}

/// Some entry carries the key `k`.
pub open spec fn has_key<V>(s: Seq<(u64, V)>, k: u64) -> bool {
    exists|i: int| 0 <= i < s.len() && s[i].0 == k
}

/// Whether the table has an entry for `k`.
pub fn table_contains_key<V>(m: &Vec<(u64, V)>, k: u64) -> (r: bool)
    ensures
        r == has_key(m@, k),
{
    let mut i: usize = 0;
    while i < m.len()
        invariant
            i <= m.len(),
            forall|j: int| 0 <= j < i ==> m@[j].0 != k,
        decreases m.len() - i,
    {
        if m[i].0 == k {
            assert(m@[i as int].0 == k);
            return true;
        }
        i = i + 1;
    }
    false
}

/// The entry for `k`, if there is one.
pub fn table_lookup<'a, V>(m: &'a Vec<(u64, V)>, k: u64) -> (r: Option<&'a V>)
    requires
        keys_distinct(m@),
    ensures
        match r {
            Some(v) => exists|i: int|
                #![auto]
                0 <= i < m@.len() && m@[i].0 == k && m@[i].1 == *v,
            None => !has_key(m@, k),
        },
{
    let mut i: usize = 0;
    while i < m.len()
        invariant
            i <= m.len(),
            forall|j: int| 0 <= j < i ==> m@[j].0 != k,
        decreases m.len() - i,
    {
        if m[i].0 == k {
            assert(m@[i as int].0 == k);
            return Some(&m[i].1);
        }
        i = i + 1;
    }
    None
}

/// Adds the entry `(k, v)` for a key not yet present.
pub fn table_insert<V>(m: &mut Vec<(u64, V)>, k: u64, v: V)
    requires
        keys_distinct(old(m)@),
        !has_key(old(m)@, k),
    ensures
        final(m)@ == old(m)@.push((k, v)),
        keys_distinct(final(m)@),
        forall|p: u64| has_key(final(m)@, p) <==> (has_key(old(m)@, p) || p == k),
{
    m.push((k, v));
    assert(m@[m@.len() - 1].0 == k);
    assert forall|i: int, j: int| 0 <= i < j < m@.len() implies m@[i].0 != m@[j].0 by {
        if j == m@.len() - 1 {
            assert(m@[i].0 == old(m)@[i].0);
            if m@[i].0 == k {
                assert(has_key(old(m)@, k));
            }
        }
    }
    assert forall|p: u64| has_key(m@, p) implies (has_key(old(m)@, p) || p == k) by {
        let i = choose|i: int| 0 <= i < m@.len() && m@[i].0 == p;
        if i < m@.len() - 1 {
            assert(old(m)@[i].0 == p);
        }
    }
    assert forall|p: u64| has_key(old(m)@, p) implies has_key(m@, p) by {
        let i = choose|i: int| 0 <= i < old(m)@.len() && old(m)@[i].0 == p;
        assert(m@[i].0 == p);
    }
}

/// The keys of the table, in entry order.
pub fn table_keys<V>(m: &Vec<(u64, V)>) -> (r: Vec<u64>)
    requires
        keys_distinct(m@),
    ensures
        r@.len() == m@.len(),
        forall|i: int| 0 <= i < m@.len() ==> r@[i] == m@[i].0,
        distinct_seq(r@),
        forall|p: u64| r@.contains(p) <==> has_key(m@, p),
{
    let mut r: Vec<u64> = Vec::new();
    let mut i: usize = 0;
    while i < m.len()
        invariant
            i <= m.len(),
            r@.len() == i,
            forall|j: int| 0 <= j < i ==> r@[j] == m@[j].0,
        decreases m.len() - i,
    {
        r.push(m[i].0);
        i = i + 1;
    }
    assert forall|p: u64| r@.contains(p) implies has_key(m@, p) by {
        let j = choose|j: int| 0 <= j < r@.len() && r@[j] == p;
        assert(m@[j].0 == p);
    }
    assert forall|p: u64| has_key(m@, p) implies r@.contains(p) by {
        let j = choose|j: int| 0 <= j < m@.len() && m@[j].0 == p;
        assert(r@[j] == p);
    }
    r
}

} // verus!
