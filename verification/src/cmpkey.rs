//! Comparison of byte strings in time that depends on their lengths only.

use crate::mem::{const_time_eq, const_time_order};
use crate::order::{
    lemma_sign_antisymmetric, lemma_sign_negative_iff_precedes, lemma_sign_positive_iff_follows,
    lemma_sign_transitive, lemma_sign_zero_iff_equal, lex_sign, precedes,
};
use core::cmp::Ordering;
use vstd::prelude::*;
use vstd::std_specs::cmp::{PartialEqSpec, PartialOrdSpec};

verus! {

/// The order of two byte strings as an `Ordering`.
pub open spec fn lex_order(a: Seq<u8>, b: Seq<u8>) -> Ordering {
    if lex_sign(a, b) < 0 {
        Ordering::Less
    } else if lex_sign(a, b) > 0 {
        Ordering::Greater
    } else {
        Ordering::Equal
    }
}

/// A byte string whose `==`, `<` and `cmp` read every byte of the common
/// length, whatever the bytes are.
pub struct CmpKey<'a>(pub &'a [u8]);

impl<'a> View for CmpKey<'a> {
    type V = Seq<u8>;

    open spec fn view(&self) -> Seq<u8> {
        self.0@
    }
}

impl<'a> CmpKey<'a> {
    /// The comparator over the bytes of `t`.
    pub fn from_ref(t: &'a [u8]) -> (r: CmpKey<'a>)
        ensures
            r@ == t@,
    {
        CmpKey(t)
    }

    /// Orders two byte strings. The common length is scanned first, in full;
    /// only where that finds no difference do the lengths decide.
    pub fn cmp(&self, rhs: &CmpKey<'a>) -> (r: Ordering)
        ensures
            r == lex_order(self@, rhs@),
    {
        let x = self.0;
        let y = rhs.0;
        let len1 = x.len();
        let len2 = y.len();
        let common = if len1 <= len2 {
            len1
        } else {
            len2
        };
        let order = const_time_order(x, y, common);
        if order < 0 {
            Ordering::Less
        } else if order > 0 {
            Ordering::Greater
        } else if len1 < len2 {
            Ordering::Less
        } else if len1 > len2 {
            Ordering::Greater
        } else {
            Ordering::Equal
        }
    }
}

impl<'a> PartialEq for CmpKey<'a> {
    /// Whether two byte strings are the same. The common length is scanned
    /// in full even where the lengths differ.
    fn eq(&self, rhs: &CmpKey<'a>) -> (r: bool) {
        let x = self.0;
        let y = rhs.0;
        let len1 = x.len();
        let len2 = y.len();
        let common = if len1 <= len2 {
            len1
        } else {
            len2
        };
        let r = const_time_eq(x, y, common);
        proof {
            if len1 == len2 {
                assert(x@.take(x@.len() as int) == x@);
                assert(y@.take(y@.len() as int) == y@);
            }
        }
        len1 == len2 && r
    }
}

impl<'a> vstd::std_specs::cmp::PartialEqSpecImpl for CmpKey<'a> {
    open spec fn obeys_eq_spec() -> bool {
        true
    }

    open spec fn eq_spec(&self, rhs: &CmpKey<'a>) -> bool {
        self@ == rhs@
    }
}

impl<'a> Eq for CmpKey<'a> {
}

impl<'a> PartialOrd for CmpKey<'a> {
    fn partial_cmp(&self, rhs: &CmpKey<'a>) -> (r: Option<Ordering>) {
        Some(self.cmp(rhs))
    }
}

impl<'a> vstd::std_specs::cmp::PartialOrdSpecImpl for CmpKey<'a> {
    open spec fn obeys_partial_cmp_spec() -> bool {
        true
    }

    open spec fn partial_cmp_spec(&self, rhs: &CmpKey<'a>) -> Option<Ordering> {
        Some(lex_order(self@, rhs@))
    }
}

/// `==` on comparators is an equivalence relation, and it holds exactly
/// where the two byte strings have one length and the same byte at every
/// position; the empty string equals the empty string only.
pub proof fn lemma_eq_is_bytewise_equivalence<'a>(a: CmpKey<'a>, b: CmpKey<'a>, c: CmpKey<'a>)
    ensures
        a.eq_spec(&a),
        a.eq_spec(&b) == b.eq_spec(&a),
        a.eq_spec(&b) && b.eq_spec(&c) ==> a.eq_spec(&c),
        a.eq_spec(&b) <==> a@.len() == b@.len() && forall|i: int|
            0 <= i < a@.len() ==> a@[i] == b@[i],
        a@.len() == 0 ==> (a.eq_spec(&b) <==> b@.len() == 0),
        a.eq_spec(&b) <==> a.partial_cmp_spec(&b) == Some(Ordering::Equal),
{
    lemma_sign_zero_iff_equal(a@, b@);
    if a@.len() == 0 && b@.len() == 0 {
        assert(a@ =~= b@);
    }
}

/// The order of comparators is lexicographic order on unsigned bytes, in
/// which a string that is the start of a longer one comes first.
pub proof fn lemma_order_is_lexicographic(a: Seq<u8>, b: Seq<u8>)
    ensures
        lex_order(a, b) == Ordering::Less <==> precedes(a, b),
        lex_order(a, b) == Ordering::Equal <==> a == b,
        lex_order(a, b) == Ordering::Greater <==> precedes(b, a),
{
    lemma_sign_zero_iff_equal(a, b);
    lemma_sign_negative_iff_precedes(a, b);
    lemma_sign_positive_iff_follows(a, b);
}

/// The order of comparators is total: swapping the sides reverses the
/// outcome, and the outcomes chain.
pub proof fn lemma_order_is_total(a: Seq<u8>, b: Seq<u8>, c: Seq<u8>)
    ensures
        lex_order(a, b) == Ordering::Less <==> lex_order(b, a) == Ordering::Greater,
        lex_order(a, b) == Ordering::Equal <==> lex_order(b, a) == Ordering::Equal,
        lex_order(a, b) != Ordering::Greater && lex_order(b, c) != Ordering::Greater
            ==> lex_order(a, c) != Ordering::Greater,
        lex_order(a, b) == Ordering::Less && lex_order(b, c) != Ordering::Greater ==> lex_order(
            a,
            c,
        ) == Ordering::Less,
        lex_order(a, b) != Ordering::Greater && lex_order(b, c) == Ordering::Less ==> lex_order(
            a,
            c,
        ) == Ordering::Less,
{
    lemma_sign_antisymmetric(a, b);
    if lex_sign(a, b) <= 0 && lex_sign(b, c) <= 0 {
        lemma_sign_transitive(a, b, c);
    }
}

} // verus!
