//! Byte-level primitives: wiping, filling, and comparing without early exit.

use vstd::prelude::*;

verus! {

/// `n` copies of `value`.
pub open spec fn filled(n: nat, value: u8) -> Seq<u8> {
    Seq::new(n, |i: int| value)
}

/// `n` zero bytes.
pub open spec fn zeros(n: nat) -> Seq<u8> {
    filled(n, 0u8)
}

/// What `prefix_sign` reports for one pair of bytes.
pub open spec fn byte_sign(x: u8, y: u8) -> int {
    if x < y {
        -1
    } else if x > y {
        1
    } else {
        0
    }
}

/// The sign of the first position below `n` at which `a` and `b` differ:
/// -1 where `a` holds the smaller byte there, 1 where it holds the larger one,
/// and 0 where the two agree on all `n` positions.
pub open spec fn prefix_sign(a: Seq<u8>, b: Seq<u8>, n: int) -> int
    decreases n,
{
    if n <= 0 {
        0
    } else if prefix_sign(a, b, n - 1) != 0 {
        prefix_sign(a, b, n - 1)
    } else {
        byte_sign(a[n - 1], b[n - 1])
    }
}

/// `core::hint::black_box` of the standard library, which Verus takes on
/// trust: it hands its argument back as it is and does not unwind. It is a
/// hint to the compiler to treat the bytes as read here, which makes it less
/// likely that the writes before it are dropped; the standard library
/// promises no more than its best effort.
#[verifier::external_body]
fn keep(t: &mut [u8])
    ensures
        final(t)@ == old(t)@,
    opens_invariants none
    no_unwind
{
    core::hint::black_box(t);
}

/// Sets every byte of `t`, which is `n` bytes long, to `value`. This is the
/// form that a destructor can call: it neither unwinds nor asks the slice for
/// its length.
pub fn fill_exact(t: &mut [u8], n: usize, value: u8)
    requires
        n == old(t)@.len(),
    ensures
        final(t)@ == filled(n as nat, value),
    opens_invariants none
    no_unwind
{
    let mut i: usize = 0;
    while i < n
        invariant
            n == t@.len(),
            i <= n,
            forall|j: int| 0 <= j < i ==> t@[j] == value,
        decreases n - i,
    {
        t[i] = value;
        i = i + 1;
    }
    keep(t);
    assert(t@ =~= filled(n as nat, value));
}

/// Sets every byte of `t` to `value`.
pub fn fill(t: &mut [u8], value: u8)
    ensures
        final(t)@ == filled(old(t)@.len(), value),
{
    let n: usize = t.len();
    fill_exact(t, n, value);
}

/// Overwrites every byte of `t` with zero.
pub fn zero(t: &mut [u8])
    ensures
        final(t)@ == zeros(old(t)@.len()),
{
    fill(t, 0);
}

/// Compares the first `len` bytes of `b1` and `b2` without stopping at the
/// first mismatch: every one of the `len` pairs is read.
pub fn const_time_eq(b1: &[u8], b2: &[u8], len: usize) -> (r: bool)
    requires
        len <= b1@.len(),
        len <= b2@.len(),
    ensures
        r == (b1@.take(len as int) == b2@.take(len as int)),
{
    let mut acc: u8 = 0;
    let mut i: usize = 0;
    assert(b1@.take(0) =~= b2@.take(0));
    while i < len
        invariant
            i <= len,
            len <= b1@.len(),
            len <= b2@.len(),
            (acc == 0) == (b1@.take(i as int) == b2@.take(i as int)),
        decreases len - i,
    {
        let x: u8 = b1[i];
        let y: u8 = b2[i];
        let ghost before = acc;
        acc = acc | (x ^ y);
        assert(((before | (x ^ y)) == 0u8) == (before == 0u8 && x == y)) by (bit_vector);
        proof {
            let p1 = b1@.take(i as int);
            let p2 = b2@.take(i as int);
            let q1 = b1@.take(i + 1);
            let q2 = b2@.take(i + 1);
            assert(q1 == p1.push(x));
            assert(q2 == p2.push(y));
            if p1 == p2 && x == y {
                assert(q1 == q2);
            }
            if q1 == q2 {
                assert(q1[i as int] == q2[i as int]);
                assert(p1 == q1.take(i as int));
                assert(p2 == q2.take(i as int));
            }
        }
        i = i + 1;
    }
    acc == 0
}

/// Orders the first `len` bytes of `b1` and `b2` as unsigned bytes, without
/// stopping at the first mismatch: every one of the `len` pairs is read, and
/// the earliest difference decides.
pub fn const_time_order(b1: &[u8], b2: &[u8], len: usize) -> (r: i32)
    requires
        len <= b1@.len(),
        len <= b2@.len(),
    ensures
        r == prefix_sign(b1@, b2@, len as int),
{
    let mut lt: u32 = 0;
    let mut gt: u32 = 0;
    let mut i: usize = 0;
    while i < len
        invariant
            i <= len,
            len <= b1@.len(),
            len <= b2@.len(),
            lt + gt <= 1,
            gt - lt == prefix_sign(b1@, b2@, i as int),
        decreases len - i,
    {
        let x: u32 = b1[i] as u32;
        let y: u32 = b2[i] as u32;
        // 1 where x >= y, and 1 where x <= y: the ninth bit of 256 + x - y.
        let ge: u32 = (256 + x - y) / 256;
        let le: u32 = (256 + y - x) / 256;
        // 1 until a difference has been seen.
        let undecided: u32 = 1 - lt - gt;
        assert(undecided * (1 - ge) == if undecided == 1 { 1 - ge } else { 0 })
            by (nonlinear_arith)
            requires
                undecided <= 1,
        ;
        assert(undecided * (1 - le) == if undecided == 1 { 1 - le } else { 0 })
            by (nonlinear_arith)
            requires
                undecided <= 1,
        ;
        lt = lt + undecided * (1 - ge);
        gt = gt + undecided * (1 - le);
        i = i + 1;
    }
    gt as i32 - lt as i32
}

} // verus!
