//! Player addresses and small vector-as-set helpers.
//!
//! Groups of players are held in plain vectors whose invariant is that no
//! address occurs twice; contracts speak about membership and length, which
//! under that invariant determine the set of players exactly.

use vstd::prelude::*;

verus! {

/// No element of the sequence occurs twice.
pub open spec fn distinct_seq(s: Seq<u64>) -> bool {
    forall|i: int, j: int| 0 <= i < j < s.len() ==> s[i] != s[j]
}

/// Whether `x` occurs in `v`.
pub fn addrs_contain(v: &Vec<u64>, x: u64) -> (r: bool)
    ensures
        r == v@.contains(x),
{
    let mut i: usize = 0;
    while i < v.len()
        invariant
            i <= v.len(),
            forall|k: int| 0 <= k < i ==> v@[k] != x,
        decreases v.len() - i,
    {
        if v[i] == x {
            return true;
        }
        i = i + 1;
    }
    false
}

/// Appends `x` unless it is already present.
pub fn addrs_insert(v: &mut Vec<u64>, x: u64)
    requires
        distinct_seq(old(v)@),
    ensures
        distinct_seq(final(v)@),
        forall|y: u64| final(v)@.contains(y) <==> (old(v)@.contains(y) || y == x),
        old(v)@.contains(x) ==> final(v)@ == old(v)@,
        !old(v)@.contains(x) ==> final(v)@ == old(v)@.push(x),
{
    if !addrs_contain(v, x) {
        v.push(x);
        assert(v@[v@.len() - 1] == x);
        assert(forall|k: int| 0 <= k < v@.len() - 1 ==> v@[k] == old(v)@[k]);
        assert forall|y: u64| v@.contains(y) implies (old(v)@.contains(y) || y == x) by {
            let k = choose|k: int| 0 <= k < v@.len() && v@[k] == y;
            if k < v@.len() - 1 {
                assert(old(v)@[k] == y);
            }
        }
        assert forall|y: u64| old(v)@.contains(y) implies v@.contains(y) by {
            let k = choose|k: int| 0 <= k < old(v)@.len() && old(v)@[k] == y;
            assert(v@[k] == y);
        }
    }
}

/// Removes `x` if it is present; other elements keep their relative order.
pub fn addrs_remove(v: &mut Vec<u64>, x: u64)
    requires
        distinct_seq(old(v)@),
    ensures
        distinct_seq(final(v)@),
        forall|y: u64| final(v)@.contains(y) <==> (old(v)@.contains(y) && y != x),
        old(v)@.contains(x) ==> final(v)@.len() == old(v)@.len() - 1,
        !old(v)@.contains(x) ==> final(v)@ == old(v)@,
{
    let mut i: usize = 0;
    while i < v.len()
        invariant
            i <= v.len(),
            v@ == old(v)@,
            distinct_seq(v@),
            forall|k: int| 0 <= k < i ==> v@[k] != x,
        decreases v.len() - i,
    {
        if v[i] == x {
            let ghost pre = v@;
            v.remove(i);
            assert forall|k: int, l: int| 0 <= k < l < v@.len() implies v@[k] != v@[l] by {
                if l < i {
                    assert(v@[k] == pre[k] && v@[l] == pre[l]);
                } else if k < i {
                    assert(v@[k] == pre[k] && v@[l] == pre[l + 1]);
                } else {
                    assert(v@[k] == pre[k + 1] && v@[l] == pre[l + 1]);
                }
            }
            assert forall|y: u64| v@.contains(y) implies (pre.contains(y) && y != x) by {
                let k = choose|k: int| 0 <= k < v@.len() && v@[k] == y;
                if k < i {
                    assert(pre[k] == y);
                } else {
                    assert(pre[k + 1] == y);
                }
            }
            assert forall|y: u64| (pre.contains(y) && y != x) implies v@.contains(y) by {
                let k = choose|k: int| 0 <= k < pre.len() && pre[k] == y;
                assert(k != i);
                if k < i {
                    assert(v@[k] == y);
                } else {
                    assert(v@[k - 1] == y);
                }
            }
            return;
        }
        i = i + 1;
    }
}

/// Copies a vector of addresses.
pub fn addrs_clone(v: &Vec<u64>) -> (r: Vec<u64>)
    ensures
        r@ == v@,
{
    let mut r: Vec<u64> = Vec::new();
    let mut i: usize = 0;
    while i < v.len()
        invariant
            i <= v.len(),
            r@ == v@.take(i as int),
        decreases v.len() - i,
    {
        r.push(v[i]);
        assert(r@ == v@.take(i as int + 1));
        i = i + 1;
    }
    assert(v@.take(v@.len() as int) == v@);
    r
}

/// Appends to `acc` every element of `extra` that it does not already hold.
pub fn addrs_union_into(acc: &mut Vec<u64>, extra: &Vec<u64>)
    requires
        distinct_seq(old(acc)@),
    ensures
        distinct_seq(final(acc)@),
        forall|y: u64| final(acc)@.contains(y) <==> (old(acc)@.contains(y) || extra@.contains(y)),
        final(acc)@.len() >= old(acc)@.len(),
{
    let mut i: usize = 0;
    while i < extra.len()
        invariant
            i <= extra.len(),
            distinct_seq(acc@),
            forall|y: u64|
                acc@.contains(y) <==> (old(acc)@.contains(y) || extra@.take(i as int).contains(y)),
            acc@.len() >= old(acc)@.len(),
        decreases extra.len() - i,
    {
        let ghost pre = acc@;
        addrs_insert(acc, extra[i]);
        assert forall|y: u64|
            acc@.contains(y) <==> (old(acc)@.contains(y) || extra@.take(i as int + 1).contains(y)) by {
            let shorter = extra@.take(i as int);
            let longer = extra@.take(i as int + 1);
            assert(longer == shorter.push(extra@[i as int]));
            assert(acc@.contains(y) <==> (pre.contains(y) || y == extra@[i as int]));
            assert(longer[i as int] == extra@[i as int]);
            if longer.contains(y) {
                let k = choose|k: int| 0 <= k < longer.len() && longer[k] == y;
                if k < i {
                    assert(shorter[k] == y);
                }
            }
            if shorter.contains(y) {
                let k = choose|k: int| 0 <= k < shorter.len() && shorter[k] == y;
                assert(longer[k] == y);
            }
        }
        i = i + 1;
    }
    assert(extra@.take(extra@.len() as int) == extra@);
}

} // verus!
