//! Sorting lists of identities and searching sorted lists.

use crate::identity::{
    id_eq, id_le, id_less, id_lt, lemma_le_lt_transitive, lemma_lt_irreflexive,
    lemma_lt_le_transitive, lemma_lt_transitive,
};
use vstd::prelude::*;

verus! {

/// Every entry of `s` sorts before or equals each later one.
pub open spec fn sorted(s: Seq<[u8; 32]>) -> bool {
    forall|i: int, j: int| 0 <= i < j < s.len() ==> id_le(#[trigger] s[i], #[trigger] s[j])
}

/// `pos` splits the sorted list `s` around `x`: what stands before `pos` sorts
/// strictly before `x`, and `x` sorts before or equals the rest.
pub open spec fn is_lower_bound(s: Seq<[u8; 32]>, x: [u8; 32], pos: int) -> bool {
    &&& 0 <= pos <= s.len()
    &&& forall|i: int| 0 <= i < pos ==> id_lt(#[trigger] s[i], x)
    &&& forall|i: int| pos <= i < s.len() ==> id_le(x, #[trigger] s[i])
}

/// A sorted list holds `x` exactly when `x` stands at its lower bound.
pub proof fn lemma_lower_bound_decides(s: Seq<[u8; 32]>, x: [u8; 32], pos: int)
    requires
        sorted(s),
        is_lower_bound(s, x, pos),
    ensures
        s.contains(x) <==> (pos < s.len() && s[pos] == x),
{
    if s.contains(x) {
        let i = choose|i: int| 0 <= i < s.len() && s[i] == x;
        if i < pos {
            assert(id_lt(s[i], x));
            lemma_lt_irreflexive(x);
        }
        assert(id_le(x, s[pos]));
        if pos < i {
            assert(id_le(s[pos], s[i]));
        }
        if s[pos] != x {
            lemma_lt_le_transitive(x, s[pos], x);
            lemma_lt_irreflexive(x);
        }
    }
}

/// Finds by bisection where `x` stands, or would stand, in the sorted list `v`.
pub fn lower_bound(v: &Vec<[u8; 32]>, x: &[u8; 32]) -> (pos: usize)
    requires
        sorted(v@),
    ensures
        is_lower_bound(v@, *x, pos as int),
{
    let mut lo: usize = 0;
    let mut hi: usize = v.len();
    while lo < hi
        invariant
            0 <= lo <= hi <= v.len(),
            sorted(v@),
            forall|i: int| 0 <= i < lo ==> id_lt(#[trigger] v@[i], *x),
            forall|i: int| hi <= i < v.len() ==> id_le(*x, #[trigger] v@[i]),
        decreases hi - lo,
    {
        let mid: usize = lo + (hi - lo) / 2;
        if id_less(&v[mid], x) {
            assert forall|i: int| 0 <= i < mid + 1 implies id_lt(#[trigger] v@[i], *x) by {
                if i < mid {
                    assert(id_le(v@[i], v@[mid as int]));
                }
                lemma_le_lt_transitive(v@[i], v@[mid as int], *x);
            }
            lo = mid + 1;
        } else {
            assert forall|i: int| mid <= i < v.len() implies id_le(*x, #[trigger] v@[i]) by {
                if mid < i {
                    assert(id_le(v@[mid as int], v@[i]));
                }
                if *x != v@[mid as int] && v@[mid as int] != v@[i] {
                    lemma_lt_transitive(*x, v@[mid as int], v@[i]);
                }
            }
            hi = mid;
        }
    }
    lo
}

/// Searches the sorted list `v` for `x`: `Ok` with a position that holds `x`, or
/// `Err` with the position at which `x` would have to be put in.
pub fn binary_search(v: &Vec<[u8; 32]>, x: &[u8; 32]) -> (found: Result<usize, usize>)
    requires
        sorted(v@),
    ensures
        found is Ok <==> v@.contains(*x),
        match found {
            Ok(i) => i < v.len() && v@[i as int] == *x,
            Err(pos) => is_lower_bound(v@, *x, pos as int),
        },
{
    let pos = lower_bound(v, x);
    proof {
        lemma_lower_bound_decides(v@, *x, pos as int);
    }
    if pos < v.len() && id_eq(&v[pos], x) {
        Ok(pos)
    } else {
        Err(pos)
    }
}

/// Putting `x` in at its lower bound keeps a sorted list sorted.
pub proof fn lemma_insert_keeps_sorted(s: Seq<[u8; 32]>, x: [u8; 32], pos: int)
    requires
        sorted(s),
        is_lower_bound(s, x, pos),
    ensures
        sorted(s.insert(pos, x)),
{
    let t = s.insert(pos, x);
    assert forall|i: int, j: int| 0 <= i < j < t.len() implies id_le(
        #[trigger] t[i],
        #[trigger] t[j],
    ) by {
        if j < pos {
            assert(id_le(s[i], s[j]));
        } else if j == pos {
            assert(id_lt(s[i], x));
        } else if i < pos {
            assert(id_lt(s[i], x));
            assert(id_le(x, s[j - 1]));
            lemma_lt_le_transitive(s[i], x, s[j - 1]);
        } else if i == pos {
            assert(id_le(x, s[j - 1]));
        } else {
            assert(id_le(s[i - 1], s[j - 1]));
        }
    }
}

/// Puts `x` into the sorted list `v` at the place the order gives it.
pub fn insert_sorted(v: &mut Vec<[u8; 32]>, x: [u8; 32]) -> (pos: usize)
    requires
        sorted(old(v)@),
    ensures
        is_lower_bound(old(v)@, x, pos as int),
        final(v)@ == old(v)@.insert(pos as int, x),
        sorted(final(v)@),
        final(v)@.to_multiset() == old(v)@.to_multiset().insert(x),
{
    let pos = lower_bound(v, &x);
    proof {
        lemma_insert_keeps_sorted(v@, x, pos as int);
        vstd::seq_lib::to_multiset_insert(v@, pos as int, x);
    }
    v.insert(pos, x);
    pos
}

/// Sorts `v` by the order of identities. The list holds afterwards what it held
/// before, each identity as often as before.
pub fn sort(v: &mut Vec<[u8; 32]>)
    ensures
        sorted(final(v)@),
        final(v)@.to_multiset() == old(v)@.to_multiset(),
        final(v)@.len() == old(v)@.len(),
{
    let mut out: Vec<[u8; 32]> = Vec::new();
    let mut i: usize = 0;
    proof {
        assert(v@.take(0) =~= Seq::<[u8; 32]>::empty());
        assert(out@ =~= Seq::<[u8; 32]>::empty());
    }
    while i < v.len()
        invariant
            0 <= i <= v.len(),
            sorted(out@),
            out@.to_multiset() == v@.take(i as int).to_multiset(),
        decreases v.len() - i,
    {
        let x = v[i];
        proof {
            assert(v@.take(i + 1) =~= v@.take(i as int).push(x));
            vstd::seq_lib::to_multiset_build(v@.take(i as int), x);
        }
        insert_sorted(&mut out, x);
        i += 1;
    }
    proof {
        assert(v@.take(v.len() as int) =~= v@);
        vstd::seq_lib::to_multiset_len(out@);
        vstd::seq_lib::to_multiset_len(v@);
    }
    *v = out;
}

/// A sorted list in which nothing stands twice has its entries in strictly
/// ascending order.
pub open spec fn strictly_sorted(s: Seq<[u8; 32]>) -> bool {
    forall|i: int, j: int| 0 <= i < j < s.len() ==> id_lt(#[trigger] s[i], #[trigger] s[j])
}

} // verus!
