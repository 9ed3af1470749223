//! The order of byte strings: by the first byte that differs, read as
//! unsigned, and by length where one string is the start of the other.

use crate::mem::{byte_sign, prefix_sign};
use vstd::prelude::*;

verus! {

/// The smaller of two lengths.
pub open spec fn shorter(a: Seq<u8>, b: Seq<u8>) -> int {
    if a.len() <= b.len() {
        a.len() as int
    } else {
        b.len() as int
    }
}

/// -1, 0 or 1 as `a` comes before, with or after `b`: the first difference
/// within the common length decides, and where there is none, the length.
pub open spec fn lex_sign(a: Seq<u8>, b: Seq<u8>) -> int {
    let s = prefix_sign(a, b, shorter(a, b));
    if s != 0 {
        s
    } else if a.len() < b.len() {
        -1
    } else if a.len() > b.len() {
        1
    } else {
        0
    }
}

/// `a` comes before `b` on account of position `k`: the two agree below `k`,
/// and at `k` either `a` ends while `b` goes on, or `a` holds the smaller
/// byte.
pub open spec fn precedes_at(a: Seq<u8>, b: Seq<u8>, k: int) -> bool {
    &&& 0 <= k <= a.len()
    &&& k <= b.len()
    &&& forall|i: int| 0 <= i < k ==> a[i] == b[i]
    &&& if k < a.len() && k < b.len() {
        a[k] < b[k]
    } else {
        k == a.len() && k < b.len()
    }
}

/// `a` comes before `b` in lexicographic order.
pub open spec fn precedes(a: Seq<u8>, b: Seq<u8>) -> bool {
    exists|k: int| precedes_at(a, b, k)
}

/// The first position below `n` at which `a` and `b` differ, or `n` where
/// there is none.
pub open spec fn first_difference(a: Seq<u8>, b: Seq<u8>, n: int) -> int
    decreases n,
{
    if n <= 0 {
        0
    } else if first_difference(a, b, n - 1) < n - 1 {
        first_difference(a, b, n - 1)
    } else if a[n - 1] != b[n - 1] {
        n - 1
    } else {
        n
    }
}

/// `first_difference` is what its name says, and `prefix_sign` is the sign
/// of the two bytes there.
pub proof fn lemma_first_difference(a: Seq<u8>, b: Seq<u8>, n: int)
    requires
        0 <= n <= a.len(),
        n <= b.len(),
    ensures
        0 <= first_difference(a, b, n) <= n,
        forall|i: int| 0 <= i < first_difference(a, b, n) ==> a[i] == b[i],
        first_difference(a, b, n) < n ==> a[first_difference(a, b, n)] != b[first_difference(
            a,
            b,
            n,
        )],
        prefix_sign(a, b, n) == if first_difference(a, b, n) < n {
            byte_sign(a[first_difference(a, b, n)], b[first_difference(a, b, n)])
        } else {
            0
        },
    decreases n,
{
    if n > 0 {
        lemma_first_difference(a, b, n - 1);
    }
}

/// `prefix_sign` is 0 exactly where the two strings agree on the first `n`
/// bytes.
pub proof fn lemma_prefix_sign_zero(a: Seq<u8>, b: Seq<u8>, n: int)
    requires
        0 <= n <= a.len(),
        n <= b.len(),
    ensures
        prefix_sign(a, b, n) == 0 <==> a.take(n) == b.take(n),
{
    lemma_first_difference(a, b, n);
    let k = first_difference(a, b, n);
    if k < n {
        assert(a.take(n)[k] == a[k]);
        assert(b.take(n)[k] == b[k]);
    } else {
        assert(a.take(n) =~= b.take(n));
    }
}

/// Two byte strings compare as equal exactly where they are the same:
/// of one length, with the same byte at every position.
pub proof fn lemma_sign_zero_iff_equal(a: Seq<u8>, b: Seq<u8>)
    ensures
        lex_sign(a, b) == 0 <==> a == b,
        a == b <==> a.len() == b.len() && forall|i: int| 0 <= i < a.len() ==> a[i] == b[i],
{
    lemma_prefix_sign_zero(a, b, shorter(a, b));
    if a.len() == b.len() {
        assert(a.take(a.len() as int) == a);
        assert(b.take(b.len() as int) == b);
    }
    if a.len() == b.len() && (forall|i: int| 0 <= i < a.len() ==> a[i] == b[i]) {
        assert(a =~= b);
    }
}

/// The sign of a comparison is -1 exactly where the left string precedes the
/// right one in lexicographic order.
pub proof fn lemma_sign_negative_iff_precedes(a: Seq<u8>, b: Seq<u8>)
    ensures
        lex_sign(a, b) < 0 <==> precedes(a, b),
        lex_sign(a, b) < 0 ==> lex_sign(a, b) == -1,
{
    let n = shorter(a, b);
    lemma_first_difference(a, b, n);
    let k = first_difference(a, b, n);
    if lex_sign(a, b) < 0 {
        assert(precedes_at(a, b, k));
    }
    if precedes(a, b) {
        let j = choose|j: int| precedes_at(a, b, j);
        if j < k {
            assert(a[j] == b[j]);
        }
        if k < j {
            assert(a[k] == b[k]);
        }
        assert(j == k);
    }
}

/// Swapping the two strings flips the sign of the comparison.
pub proof fn lemma_sign_antisymmetric(a: Seq<u8>, b: Seq<u8>)
    ensures
        lex_sign(b, a) == -lex_sign(a, b),
{
    let n = shorter(a, b);
    lemma_first_difference(a, b, n);
    lemma_first_difference(b, a, n);
    let k = first_difference(a, b, n);
    let j = first_difference(b, a, n);
    if j < k {
        assert(a[j] == b[j]);
    }
    if k < j {
        assert(b[k] == a[k]);
    }
}

/// The sign of a comparison is 1 exactly where the right string precedes the
/// left one in lexicographic order.
pub proof fn lemma_sign_positive_iff_follows(a: Seq<u8>, b: Seq<u8>)
    ensures
        lex_sign(a, b) > 0 <==> precedes(b, a),
        lex_sign(a, b) > 0 ==> lex_sign(a, b) == 1,
{
    lemma_sign_antisymmetric(a, b);
    lemma_sign_negative_iff_precedes(b, a);
}

/// Of two byte strings exactly one holds: the first precedes the second, they
/// are equal, or the second precedes the first.
pub proof fn lemma_order_total(a: Seq<u8>, b: Seq<u8>)
    ensures
        precedes(a, b) || a == b || precedes(b, a),
        !(precedes(a, b) && a == b),
        !(precedes(b, a) && a == b),
        !(precedes(a, b) && precedes(b, a)),
{
    lemma_sign_zero_iff_equal(a, b);
    lemma_sign_negative_iff_precedes(a, b);
    lemma_sign_positive_iff_follows(a, b);
}

/// A string that is the start of a longer one precedes it.
pub proof fn lemma_prefix_precedes(a: Seq<u8>, b: Seq<u8>)
    requires
        a.len() < b.len(),
        a == b.take(a.len() as int),
    ensures
        lex_sign(a, b) == -1,
{
    assert(precedes_at(a, b, a.len() as int));
    lemma_sign_negative_iff_precedes(a, b);
}

/// Where two strings agree below position `k` and differ at `k`, the bytes
/// at `k`, read as unsigned, decide the comparison.
pub proof fn lemma_first_difference_decides(a: Seq<u8>, b: Seq<u8>, k: int)
    requires
        0 <= k < a.len(),
        k < b.len(),
        a.take(k) == b.take(k),
        a[k] != b[k],
    ensures
        lex_sign(a, b) == byte_sign(a[k], b[k]),
{
    assert forall|i: int| 0 <= i < k implies a[i] == b[i] by {
        assert(a.take(k)[i] == a[i]);
        assert(b.take(k)[i] == b[i]);
    }
    if a[k] < b[k] {
        assert(precedes_at(a, b, k));
        lemma_sign_negative_iff_precedes(a, b);
    } else {
        assert(precedes_at(b, a, k));
        lemma_sign_positive_iff_follows(a, b);
    }
}

/// Lexicographic order is transitive.
pub proof fn lemma_precedes_transitive(a: Seq<u8>, b: Seq<u8>, c: Seq<u8>)
    requires
        precedes(a, b),
        precedes(b, c),
    ensures
        precedes(a, c),
{
    let k1 = choose|k: int| precedes_at(a, b, k);
    let k2 = choose|k: int| precedes_at(b, c, k);
    if k1 < k2 {
        assert(b[k1] == c[k1]);
        assert(precedes_at(a, c, k1));
    } else if k1 == k2 {
        assert(precedes_at(a, c, k1));
    } else {
        assert(a[k2] == b[k2]);
        assert(precedes_at(a, c, k2));
    }
}

/// Comparison signs chain: what is not after `b`, where `b` is not after
/// `c`, is not after `c`; and it is before `c` where either step is strict.
pub proof fn lemma_sign_transitive(a: Seq<u8>, b: Seq<u8>, c: Seq<u8>)
    requires
        lex_sign(a, b) <= 0,
        lex_sign(b, c) <= 0,
    ensures
        lex_sign(a, c) <= 0,
        lex_sign(a, b) < 0 || lex_sign(b, c) < 0 ==> lex_sign(a, c) < 0,
{
    lemma_sign_zero_iff_equal(a, b);
    lemma_sign_zero_iff_equal(b, c);
    lemma_sign_zero_iff_equal(a, c);
    lemma_sign_negative_iff_precedes(a, b);
    lemma_sign_negative_iff_precedes(b, c);
    lemma_sign_negative_iff_precedes(a, c);
    if lex_sign(a, b) < 0 && lex_sign(b, c) < 0 {
        lemma_precedes_transitive(a, b, c);
    }
}

} // verus!
