//! Task and authority identities, and the byte-wise order that sorts them.

use vstd::prelude::*;

verus! {

/// The identity of a task: the hash of the program whose execution is being proved.
pub type TaskId = [u8; 32];

/// The public key of an authority.
pub type AuthorityId = [u8; 32];

/// A signature made with an authority's key.
pub type Signature = [u8; 64];

/// `a` and `b` agree on every byte before position `k` and differ at `k`.
pub open spec fn first_difference(a: Seq<u8>, b: Seq<u8>, k: int) -> bool {
    &&& 0 <= k < a.len()
    &&& k < b.len()
    &&& a[k] != b[k]
    &&& forall|j: int| 0 <= j < k ==> a[j] == b[j]
}

/// Lexicographic order on two byte strings of one length: `a` sorts before `b`.
pub open spec fn bytes_lt(a: Seq<u8>, b: Seq<u8>) -> bool {
    exists|k: int| #[trigger] first_difference(a, b, k) && a[k] < b[k]
}

/// `a` sorts strictly before `b`.
pub open spec fn id_lt(a: [u8; 32], b: [u8; 32]) -> bool {
    bytes_lt(a@, b@)
}

/// `a` sorts before `b` or equals it.
pub open spec fn id_le(a: [u8; 32], b: [u8; 32]) -> bool {
    a == b || id_lt(a, b)
}

/// Identities that hold the same bytes are equal.
pub proof fn lemma_same_bytes(a: [u8; 32], b: [u8; 32])
    requires
        forall|j: int| 0 <= j < 32 ==> a@[j] == b@[j],
    ensures
        a == b,
{
    assert(a =~= b);
}

/// No identity sorts before itself.
pub proof fn lemma_lt_irreflexive(a: [u8; 32])
    ensures
        !id_lt(a, a),
{
}

/// Two byte strings have at most one first difference.
pub proof fn lemma_first_difference_unique(a: Seq<u8>, b: Seq<u8>, k1: int, k2: int)
    requires
        first_difference(a, b, k1),
        first_difference(a, b, k2),
    ensures
        k1 == k2,
{
    if k1 < k2 {
        assert(a[k1] == b[k1]);
    } else if k2 < k1 {
        assert(a[k2] == b[k2]);
    }
}

/// The order is asymmetric: of two identities at most one sorts before the other.
pub proof fn lemma_lt_asymmetric(a: [u8; 32], b: [u8; 32])
    requires
        id_lt(a, b),
    ensures
        !id_lt(b, a),
        a != b,
{
    let k = choose|k: int| #[trigger] first_difference(a@, b@, k) && a@[k] < b@[k];
    if id_lt(b, a) {
        let m = choose|m: int| #[trigger] first_difference(b@, a@, m) && b@[m] < a@[m];
        assert(first_difference(a@, b@, m));
        lemma_first_difference_unique(a@, b@, k, m);
    }
}

/// The order is transitive.
pub proof fn lemma_lt_transitive(a: [u8; 32], b: [u8; 32], c: [u8; 32])
    requires
        id_lt(a, b),
        id_lt(b, c),
    ensures
        id_lt(a, c),
{
    let k = choose|k: int| #[trigger] first_difference(a@, b@, k) && a@[k] < b@[k];
    let m = choose|m: int| #[trigger] first_difference(b@, c@, m) && b@[m] < c@[m];
    let n = if k <= m { k } else { m };
    assert(first_difference(a@, c@, n));
}

/// `a <= b < c` gives `a < c`.
pub proof fn lemma_le_lt_transitive(a: [u8; 32], b: [u8; 32], c: [u8; 32])
    requires
        id_le(a, b),
        id_lt(b, c),
    ensures
        id_lt(a, c),
{
    if a != b {
        lemma_lt_transitive(a, b, c);
    }
}

/// `a < b <= c` gives `a < c`.
pub proof fn lemma_lt_le_transitive(a: [u8; 32], b: [u8; 32], c: [u8; 32])
    requires
        id_lt(a, b),
        id_le(b, c),
    ensures
        id_lt(a, c),
{
    if b != c {
        lemma_lt_transitive(a, b, c);
    }
}

/// Whether two identities hold the same bytes.
pub fn id_eq(a: &[u8; 32], b: &[u8; 32]) -> (same: bool)
    ensures
        same == (*a == *b),
{
    let mut i: usize = 0;
    while i < 32
        invariant
            0 <= i <= 32,
            forall|j: int| 0 <= j < i ==> a@[j] == b@[j],
        decreases 32 - i,
    {
        if a[i] != b[i] {
            return false;
        }
        i += 1;
    }
    proof {
        lemma_same_bytes(*a, *b);
    }
    true
}

/// Whether `a` sorts strictly before `b`.
pub fn id_less(a: &[u8; 32], b: &[u8; 32]) -> (less: bool)
    ensures
        less == id_lt(*a, *b),
        !less && *a != *b ==> id_lt(*b, *a),
{
    let mut i: usize = 0;
    while i < 32
        invariant
            0 <= i <= 32,
            forall|j: int| 0 <= j < i ==> a@[j] == b@[j],
        decreases 32 - i,
    {
        if a[i] != b[i] {
            let less = a[i] < b[i];
            proof {
                assert(first_difference(a@, b@, i as int));
                assert(first_difference(b@, a@, i as int));
                if less {
                    assert(id_lt(*a, *b));
                } else {
                    assert(id_lt(*b, *a));
                    lemma_lt_asymmetric(*b, *a);
                }
            }
            return less;
        }
        i += 1;
    }
    proof {
        lemma_same_bytes(*a, *b);
        lemma_lt_irreflexive(*a);
    }
    false
}

/// Any two identities are equal or one sorts before the other.
pub proof fn lemma_lt_total(a: [u8; 32], b: [u8; 32])
    ensures
        a == b || id_lt(a, b) || id_lt(b, a),
{
    if a != b {
        if a@ == b@ {
            lemma_same_bytes(a, b);
        }
        let k = first_difference_from(a@, b@, 0);
        assert(first_difference(b@, a@, k));
    }
}

/// Finds the first position from `from` on at which `a` and `b` differ.
proof fn first_difference_from(a: Seq<u8>, b: Seq<u8>, from: int) -> (k: int)
    requires
        a.len() == b.len(),
        0 <= from <= a.len(),
        a != b,
        forall|j: int| 0 <= j < from ==> a[j] == b[j],
    ensures
        first_difference(a, b, k),
    decreases a.len() - from,
{
    if from == a.len() {
        assert(a =~= b);
        0
    } else if a[from] != b[from] {
        from
    } else {
        first_difference_from(a, b, from + 1)
    }
}

} // verus!
