//! Byte-wise equality and lexicographic order.
//!
//! Two byte strings are compared at the first index at which they differ.
//! Where there is none, the shorter one is a prefix of the other and comes
//! first; where both end together, they are equal.

use vstd::prelude::*;
use std::cmp::Ordering;

verus! {

/// The length of the longest prefix that `a` and `b` share.
pub open spec fn common_prefix(a: Seq<u8>, b: Seq<u8>) -> int
    decreases a.len(),
{
    if a.len() == 0 || b.len() == 0 || a[0] != b[0] {
        0
    } else {
        1 + common_prefix(a.drop_first(), b.drop_first())
    }
}

/// The lexicographic order of `a` and `b` by their bytes.
pub open spec fn lex_order(a: Seq<u8>, b: Seq<u8>) -> Ordering {
    let k = common_prefix(a, b);
    if k == a.len() && k == b.len() {
        Ordering::Equal
    } else if k == a.len() {
        Ordering::Less
    } else if k == b.len() {
        Ordering::Greater
    } else if a[k] < b[k] {
        Ordering::Less
    } else {
        Ordering::Greater
    }
}

/// An order seen from the other side.
pub open spec fn reversed(order: Ordering) -> Ordering {
    match order {
        Ordering::Less => Ordering::Greater,
        Ordering::Equal => Ordering::Equal,
        Ordering::Greater => Ordering::Less,
    }
}

/// `a` comes before `b`.
pub open spec fn lex_less(a: Seq<u8>, b: Seq<u8>) -> bool {
    lex_order(a, b) == Ordering::Less
}

/// `common_prefix` is the one index up to which `a` and `b` agree and at
/// which they differ or one of them ends.
pub proof fn lemma_common_prefix(a: Seq<u8>, b: Seq<u8>)
    ensures
        0 <= common_prefix(a, b) <= a.len(),
        common_prefix(a, b) <= b.len(),
        forall|i: int| 0 <= i < common_prefix(a, b) ==> a[i] == b[i],
        common_prefix(a, b) < a.len() && common_prefix(a, b) < b.len() ==> a[common_prefix(a, b)]
            != b[common_prefix(a, b)],
    decreases a.len(),
{
    if a.len() == 0 || b.len() == 0 || a[0] != b[0] {
    } else {
        let ra = a.drop_first();
        let rb = b.drop_first();
        lemma_common_prefix(ra, rb);
        let k = common_prefix(a, b);
        assert forall|i: int| 0 <= i < k implies a[i] == b[i] by {
            if i > 0 {
                assert(a[i] == ra[i - 1]);
                assert(b[i] == rb[i - 1]);
            }
        }
        if k < a.len() && k < b.len() {
            assert(a[k] == ra[k - 1]);
            assert(b[k] == rb[k - 1]);
        }
    }
}

/// An index up to which `a` and `b` agree and at which they differ or one
/// of them ends is `common_prefix`.
pub proof fn lemma_common_prefix_unique(a: Seq<u8>, b: Seq<u8>, k: int)
    requires
        0 <= k <= a.len(),
        k <= b.len(),
        forall|i: int| 0 <= i < k ==> a[i] == b[i],
        k < a.len() && k < b.len() ==> a[k] != b[k],
    ensures
        common_prefix(a, b) == k,
{
    lemma_common_prefix(a, b);
    let p = common_prefix(a, b);
    if p < k {
        assert(a[p] == b[p]);
    } else if k < p {
        assert(a[k] == b[k]);
    }
}

/// The shared prefix does not depend on the side from which one looks.
pub proof fn lemma_common_prefix_symmetric(a: Seq<u8>, b: Seq<u8>)
    ensures
        common_prefix(a, b) == common_prefix(b, a),
{
    lemma_common_prefix(a, b);
    lemma_common_prefix_unique(b, a, common_prefix(a, b));
}

/// A byte string shares the whole of itself with itself.
pub proof fn lemma_common_prefix_of_same(a: Seq<u8>)
    ensures
        common_prefix(a, a) == a.len(),
{
    lemma_common_prefix_unique(a, a, a.len() as int);
}

/// Two byte strings are equal in the order exactly when they are the same
/// bytes.
pub proof fn lemma_equal_iff_same(a: Seq<u8>, b: Seq<u8>)
    ensures
        lex_order(a, b) == Ordering::Equal <==> a == b,
{
    lemma_common_prefix(a, b);
    if lex_order(a, b) == Ordering::Equal {
        assert(a =~= b);
    }
    if a == b {
        lemma_common_prefix_of_same(a);
    }
}

/// Looking from the other side turns the order around.
pub proof fn lemma_order_reverses(a: Seq<u8>, b: Seq<u8>)
    ensures
        lex_order(b, a) == reversed(lex_order(a, b)),
{
    lemma_common_prefix(a, b);
    lemma_common_prefix_symmetric(a, b);
}

/// Of two byte strings exactly one comes first, or they are the same.
pub proof fn lemma_order_total(a: Seq<u8>, b: Seq<u8>)
    ensures
        lex_less(a, b) || lex_less(b, a) || a == b,
        !(lex_less(a, b) && lex_less(b, a)),
        !(lex_less(a, b) && a == b),
{
    lemma_order_reverses(a, b);
    lemma_equal_iff_same(a, b);
}

/// The order is transitive.
pub proof fn lemma_order_transitive(a: Seq<u8>, b: Seq<u8>, c: Seq<u8>)
    requires
        lex_less(a, b),
        lex_less(b, c),
    ensures
        lex_less(a, c),
{
    lemma_common_prefix(a, b);
    lemma_common_prefix(b, c);
    let i = common_prefix(a, b);
    let j = common_prefix(b, c);
    let k = if i <= j {
        i
    } else {
        j
    };
    assert forall|n: int| 0 <= n < k implies a[n] == c[n] by {
        assert(a[n] == b[n]);
        assert(b[n] == c[n]);
    }
    if k < a.len() && k < c.len() {
        if i < j {
            assert(b[k] == c[k]);
        } else if j < i {
            assert(a[k] == b[k]);
        }
    }
    lemma_common_prefix_unique(a, c, k);
}

/// The length of the longest prefix that `a` and `b` share.
pub fn mismatch(a: &[u8], b: &[u8]) -> (k: usize)
    ensures
        k == common_prefix(a@, b@),
        k <= a@.len(),
        k <= b@.len(),
{
    let mut i: usize = 0;
    while i < a.len() && i < b.len() && a[i] == b[i]
        invariant
            i <= a@.len(),
            i <= b@.len(),
            forall|n: int| 0 <= n < i ==> a@[n] == b@[n],
        decreases a@.len() - i,
    {
        i += 1;
    }
    proof {
        lemma_common_prefix_unique(a@, b@, i as int);
    }
    i
}

/// Whether `a` and `b` are the same bytes.
pub fn bytes_equal(a: &[u8], b: &[u8]) -> (same: bool)
    ensures
        same == (a@ == b@),
{
    let k = mismatch(a, b);
    proof {
        lemma_equal_iff_same(a@, b@);
    }
    k == a.len() && k == b.len()
}

/// Compares `a` and `b` byte by byte.
pub fn compare(a: &[u8], b: &[u8]) -> (order: Ordering)
    ensures
        order == lex_order(a@, b@),
{
    let k = mismatch(a, b);
    if k == a.len() {
        if k == b.len() {
            Ordering::Equal
        } else {
            Ordering::Less
        }
    } else if k == b.len() {
        Ordering::Greater
    } else if a[k] < b[k] {
        Ordering::Less
    } else {
        Ordering::Greater
    }
}

} // verus!
