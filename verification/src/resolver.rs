//! Round resolution: which of the distinct moves present in a round survive.
//!
//! For two or three distinct moves a pairwise dominance tally is computed:
//! a move that defeats every other move present is an "only-wins" move, a
//! move defeated by every other move present is an "only-loses" move.  The
//! surviving moves are the only-wins set when it is non-empty, otherwise
//! everything except the only-loses set when that is non-empty, otherwise
//! (a full cycle) every move present.  With one, four or five distinct moves
//! no strict dominance partition exists and every move survives.

use vstd::prelude::*;

use crate::moves::{beats, Move};

verus! {

/// No move occurs twice.
pub open spec fn distinct_moves(s: Seq<Move>) -> bool {
    forall|i: int, j: int| 0 <= i < j < s.len() ==> s[i] != s[j]
}

/// `m` is present and defeats every other move present: its loss counter in
/// the pairwise tally is zero.
pub open spec fn only_wins_in(s: Seq<Move>, m: Move) -> bool {
    s.contains(m) && forall|o: Move| s.contains(o) && o != m ==> beats(m, o)
}

/// `m` is present and is defeated by every other move present: its win
/// counter in the pairwise tally is zero.
pub open spec fn only_loses_in(s: Seq<Move>, m: Move) -> bool {
    s.contains(m) && forall|o: Move| s.contains(o) && o != m ==> beats(o, m)
}

/// Some move present defeats all others.
pub open spec fn has_only_wins(s: Seq<Move>) -> bool {
    exists|m: Move| only_wins_in(s, m)
}

/// Some move present loses to all others.
pub open spec fn has_only_loses(s: Seq<Move>) -> bool {
    exists|m: Move| only_loses_in(s, m)
}

/// `m` survives the pairwise dominance tally over the distinct moves `s`.
pub open spec fn tally_survives(s: Seq<Move>, m: Move) -> bool {
    if has_only_wins(s) {
        only_wins_in(s, m)
    } else if has_only_loses(s) {
        s.contains(m) && !only_loses_in(s, m)
    } else {
        s.contains(m)
    }
}

/// `m` survives a round whose distinct present moves are `s`: the tally
/// decides for two or three distinct moves, every move survives otherwise.
pub open spec fn round_survives(s: Seq<Move>, m: Move) -> bool {
    if s.len() == 2 || s.len() == 3 {
        tally_survives(s, m)
    } else {
        s.contains(m)
    }
}

/// Whether `x` occurs in `v`.
pub fn moves_contain(v: &Vec<Move>, x: Move) -> (r: bool)
    ensures
        r == v@.contains(x),
{
    let mut i: usize = 0;
    while i < v.len()
        invariant
            i <= v.len(),
            forall|k: int| 0 <= k < i ==> v@[k] != x,
        decreases v.len() - i,
    {
        if v[i] == x {
            return true;
        }
        i = i + 1;
    }
    false
}

/// Appends `x` unless it is already present.
pub fn moves_insert(v: &mut Vec<Move>, x: Move)
    requires
        distinct_moves(old(v)@),
    ensures
        distinct_moves(final(v)@),
        forall|y: Move| final(v)@.contains(y) <==> (old(v)@.contains(y) || y == x),
        final(v)@.len() >= old(v)@.len(),
        final(v)@.len() > 0,
{
    if !moves_contain(v, x) {
        v.push(x);
        assert(v@[v@.len() - 1] == x);
        assert forall|y: Move| v@.contains(y) implies (old(v)@.contains(y) || y == x) by {
            let k = choose|k: int| 0 <= k < v@.len() && v@[k] == y;
            if k < v@.len() - 1 {
                assert(old(v)@[k] == y);
            }
        }
        assert forall|y: Move| old(v)@.contains(y) implies v@.contains(y) by {
            let k = choose|k: int| 0 <= k < old(v)@.len() && old(v)@[k] == y;
            assert(v@[k] == y);
        }
    } else {
        assert(v@.contains(x));
        assert(v@.len() > 0);
    }
}

/// Whether `m` defeats every other move in `v`.
fn beats_all_others(v: &Vec<Move>, m: Move) -> (r: bool)
    ensures
        r == forall|o: Move| v@.contains(o) && o != m ==> beats(m, o),
{
    let mut i: usize = 0;
    while i < v.len()
        invariant
            i <= v.len(),
            forall|k: int| 0 <= k < i ==> (v@[k] == m || beats(m, v@[k])),
        decreases v.len() - i,
    {
        let o = v[i];
        if o != m && !m.wins(&o) {
            assert(v@.contains(o));
            return false;
        }
        i = i + 1;
    }
    assert forall|o: Move| v@.contains(o) && o != m implies beats(m, o) by {
        let k = choose|k: int| 0 <= k < v@.len() && v@[k] == o;
    }
    true
}

/// Whether `m` is defeated by every other move in `v`.
fn loses_to_all_others(v: &Vec<Move>, m: Move) -> (r: bool)
    ensures
        r == forall|o: Move| v@.contains(o) && o != m ==> beats(o, m),
{
    let mut i: usize = 0;
    while i < v.len()
        invariant
            i <= v.len(),
            forall|k: int| 0 <= k < i ==> (v@[k] == m || beats(v@[k], m)),
        decreases v.len() - i,
    {
        let o = v[i];
        if o != m && !o.wins(&m) {
            assert(v@.contains(o));
            return false;
        }
        i = i + 1;
    }
    assert forall|o: Move| v@.contains(o) && o != m implies beats(o, m) by {
        let k = choose|k: int| 0 <= k < v@.len() && v@[k] == o;
    }
    true
}

/// The set of moves surviving the pairwise dominance tally over the distinct
/// moves `present`.
pub fn winning_moves(present: &Vec<Move>) -> (r: Vec<Move>)
    requires
        distinct_moves(present@),
    ensures
        distinct_moves(r@),
        forall|m: Move| r@.contains(m) <==> tally_survives(present@, m),
{
    let mut only_wins: Vec<Move> = Vec::new();
    let mut only_loses: Vec<Move> = Vec::new();
    let mut i: usize = 0;
    while i < present.len()
        invariant
            i <= present.len(),
            distinct_moves(present@),
            distinct_moves(only_wins@),
            distinct_moves(only_loses@),
            forall|m: Move|
                only_wins@.contains(m) <==> (present@.take(i as int).contains(m) && only_wins_in(
                    present@,
                    m,
                )),
            forall|m: Move|
                only_loses@.contains(m) <==> (present@.take(i as int).contains(m) && only_loses_in(
                    present@,
                    m,
                ) && !only_wins_in(present@, m)),
        decreases present.len() - i,
    {
        let m = present[i];
        if beats_all_others(present, m) {
            moves_insert(&mut only_wins, m);
        } else if loses_to_all_others(present, m) {
            moves_insert(&mut only_loses, m);
        }
        assert(present@.take(i as int + 1) == present@.take(i as int).push(present@[i as int]));
        assert forall|x: Move|
            only_wins@.contains(x) <==> (present@.take(i as int + 1).contains(x) && only_wins_in(
                present@,
                x,
            )) by {
            let shorter = present@.take(i as int);
            let longer = present@.take(i as int + 1);
            assert(longer[i as int] == present@[i as int]);
            if longer.contains(x) {
                let k = choose|k: int| 0 <= k < longer.len() && longer[k] == x;
                if k < i {
                    assert(shorter[k] == x);
                }
            }
            if shorter.contains(x) {
                let k = choose|k: int| 0 <= k < shorter.len() && shorter[k] == x;
                assert(longer[k] == x);
            }
        }
        assert forall|x: Move|
            only_loses@.contains(x) <==> (present@.take(i as int + 1).contains(x) && only_loses_in(
                present@,
                x,
            ) && !only_wins_in(present@, x)) by {
            let shorter = present@.take(i as int);
            let longer = present@.take(i as int + 1);
            assert(longer[i as int] == present@[i as int]);
            assert(present@.contains(m)) by {
                assert(present@[i as int] == m);
            }
            if longer.contains(x) {
                let k = choose|k: int| 0 <= k < longer.len() && longer[k] == x;
                if k < i {
                    assert(shorter[k] == x);
                }
            }
            if shorter.contains(x) {
                let k = choose|k: int| 0 <= k < shorter.len() && shorter[k] == x;
                assert(longer[k] == x);
            }
        }
        i = i + 1;
    }
    assert(present@.take(present@.len() as int) == present@);
    if only_wins.len() > 0 {
        assert(only_wins@.contains(only_wins@[0]));
        assert(has_only_wins(present@));
        return only_wins;
    }
    if only_loses.len() > 0 {
        assert(only_loses@.contains(only_loses@[0]));
        assert(has_only_loses(present@));
        assert(!has_only_wins(present@)) by {
            if has_only_wins(present@) {
                let m = choose|m: Move| only_wins_in(present@, m);
                assert(only_wins@.contains(m));
            }
        }
        let mut r: Vec<Move> = Vec::new();
        let mut i: usize = 0;
        while i < present.len()
            invariant
                i <= present.len(),
                distinct_moves(present@),
                distinct_moves(r@),
                forall|m: Move|
                    r@.contains(m) <==> (present@.take(i as int).contains(m) && !only_loses_in(
                        present@,
                        m,
                    )),
            decreases present.len() - i,
        {
            let m = present[i];
            if !loses_to_all_others(present, m) {
                moves_insert(&mut r, m);
            }
            assert(present@.take(i as int + 1) == present@.take(i as int).push(present@[i as int]));
            assert(present@.contains(m)) by {
                assert(present@[i as int] == m);
            }
            assert forall|x: Move|
                r@.contains(x) <==> (present@.take(i as int + 1).contains(x) && !only_loses_in(
                    present@,
                    x,
                )) by {
                let shorter = present@.take(i as int);
                let longer = present@.take(i as int + 1);
                assert(longer[i as int] == present@[i as int]);
                if longer.contains(x) {
                    let k = choose|k: int| 0 <= k < longer.len() && longer[k] == x;
                    if k < i {
                        assert(shorter[k] == x);
                    }
                }
                if shorter.contains(x) {
                    let k = choose|k: int| 0 <= k < shorter.len() && shorter[k] == x;
                    assert(longer[k] == x);
                }
            }
            i = i + 1;
        }
        assert(present@.take(present@.len() as int) == present@);
        return r;
    }
    assert(!has_only_wins(present@)) by {
        if has_only_wins(present@) {
            let m = choose|m: Move| only_wins_in(present@, m);
            assert(only_wins@.contains(m));
        }
    }
    assert(!has_only_loses(present@)) by {
        if has_only_loses(present@) {
            let m = choose|m: Move| only_loses_in(present@, m);
            assert(only_loses@.contains(m));
        }
    }
    let mut r: Vec<Move> = Vec::new();
    let mut i: usize = 0;
    while i < present.len()
        invariant
            i <= present.len(),
            distinct_moves(present@),
            r@ == present@.take(i as int),
        decreases present.len() - i,
    {
        r.push(present[i]);
        assert(r@ == present@.take(i as int + 1));
        i = i + 1;
    }
    assert(present@.take(present@.len() as int) == present@);
    r
}

/// At most one move can defeat all others present, and at most one can lose
/// to all others present: two such moves would have to defeat each other.
pub proof fn lemma_tally_extremes_unique(s: Seq<Move>)
    ensures
        forall|a: Move, b: Move| only_wins_in(s, a) && only_wins_in(s, b) ==> a == b,
        forall|a: Move, b: Move| only_loses_in(s, a) && only_loses_in(s, b) ==> a == b,
{
    assert forall|a: Move, b: Move| only_wins_in(s, a) && only_wins_in(s, b) implies a == b by {
        if a != b {
            assert(beats(a, b) && beats(b, a));
        }
    }
    assert forall|a: Move, b: Move| only_loses_in(s, a) && only_loses_in(s, b) implies a == b by {
        if a != b {
            assert(beats(a, b) && beats(b, a));
        }
    }
}

/// Some move always survives a round: the surviving move set is never empty.
pub proof fn lemma_survivor_exists(s: Seq<Move>)
    requires
        distinct_moves(s),
        s.len() >= 1,
    ensures
        exists|m: Move| round_survives(s, m),
{
    assert(s.contains(s[0]));
    if s.len() == 2 || s.len() == 3 {
        if has_only_wins(s) {
            let m = choose|m: Move| only_wins_in(s, m);
            assert(round_survives(s, m));
        } else if has_only_loses(s) {
            let l = choose|m: Move| only_loses_in(s, m);
            // Any other move present defeats `l`, so it does not lose to all
            // others and therefore survives.
            assert(s.contains(s[0]) && s.contains(s[1]));
            let o: Move = if s[0] == l { s[1] } else { s[0] };
            assert(s.contains(o));
            assert(o != l);
            assert(beats(o, l));
            assert(!only_loses_in(s, o));
            assert(round_survives(s, o));
        } else {
            assert(round_survives(s, s[0]));
        }
    } else {
        assert(round_survives(s, s[0]));
    }
}

/// A sequence of pairwise distinct moves holds at most the five moves there
/// are.
pub proof fn lemma_distinct_moves_bound(s: Seq<Move>)
    requires
        distinct_moves(s),
    ensures
        s.len() <= 5,
{
    if s.len() >= 6 {
        assert(s[0] != s[1] && s[0] != s[2] && s[0] != s[3] && s[0] != s[4] && s[0] != s[5]);
        assert(false);
    }
}

} // verus!
