//! The mathematical state of a guarded store: the secret bytes and the
//! access control beside them.

use crate::mem::zeros;
use crate::prot::{
    balanced, lemma_read_guards_any_order, outstanding, run, Access, BorrowState, Prot, Step,
};
use vstd::prelude::*;

verus! {

/// What a guarded store holds.
pub struct StoreState {
    /// The secret.
    pub bytes: Seq<u8>,
    /// Guards outstanding and protection in force.
    pub borrows: BorrowState,
}

impl StoreState {
    /// A store fresh from construction: it holds `bytes`, no guard is
    /// outstanding, and the region is inaccessible.
    pub open spec fn sealed(bytes: Seq<u8>) -> StoreState {
        StoreState { bytes, borrows: BorrowState::idle() }
    }

    /// The bytes may be read.
    pub open spec fn readable(self) -> bool {
        self.borrows.prot != Prot::NoAccess
    }

    /// The bytes may be written.
    pub open spec fn writable(self) -> bool {
        self.borrows.prot == Prot::ReadWrite
    }

    /// The state after a guard has been taken. The secret is untouched.
    pub open spec fn acquire(self, access: Access) -> StoreState {
        StoreState { bytes: self.bytes, borrows: self.borrows.acquire(access) }
    }

    /// The state after a guard has been given back. The secret is untouched.
    pub open spec fn release(self) -> StoreState {
        StoreState { bytes: self.bytes, borrows: self.borrows.release() }
    }

    /// The state after `value` has been written at position `i`.
    pub open spec fn put(self, i: int, value: u8) -> StoreState {
        StoreState { bytes: self.bytes.update(i, value), borrows: self.borrows }
    }

    /// The state after the secret has been overwritten with zeros.
    pub open spec fn wiped(self) -> StoreState {
        StoreState { bytes: zeros(self.bytes.len()), borrows: self.borrows }
    }

    /// The state after the read guards of `trace` have been taken and given
    /// back, one step after the other.
    pub open spec fn after(self, trace: Seq<Step>) -> StoreState
        decreases trace.len(),
    {
        if trace.len() == 0 {
            self
        } else {
            match trace.last() {
                Step::Read => self.after(trace.drop_last()).acquire(Access::Read),
                Step::Release => self.after(trace.drop_last()).release(),
            }
        }
    }
}

/// `s` is a store fresh from construction that holds `len` bytes, of which
/// `f` gave the one at each position.
pub open spec fn built_by<F: Fn(usize) -> u8>(s: StoreState, len: usize, f: F) -> bool {
    &&& s.borrows == BorrowState::idle()
    &&& s.bytes.len() == len
    &&& forall|i: usize| i < len ==> call_ensures(f, (i,), #[trigger] s.bytes[i as int])
}

/// A store built from a function of the position shows, under a read guard,
/// the bytes that the function gave, as many as were asked for.
pub proof fn lemma_read_gives_what_was_built<F: Fn(usize) -> u8>(s: StoreState, len: usize, f: F)
    requires
        built_by(s, len, f),
    ensures
        s.borrows.admits(Access::Read),
        s.acquire(Access::Read).readable(),
        s.acquire(Access::Read).bytes.len() == len,
        forall|i: usize|
            i < len ==> call_ensures(f, (i,), #[trigger] s.acquire(Access::Read).bytes[i as int]),
        s.acquire(Access::Read).release() == s,
{
}

/// A store gives back what was put in: whatever read guards were taken and
/// given back since it was built, and in whatever order, it holds the bytes
/// it was built from, and they can be read exactly while a guard is
/// outstanding.
pub proof fn lemma_read_gives_what_was_stored(bytes: Seq<u8>, trace: Seq<Step>)
    requires
        balanced(trace),
    ensures
        StoreState::sealed(bytes).after(trace).bytes == bytes,
        StoreState::sealed(bytes).after(trace).borrows == run(trace),
        StoreState::sealed(bytes).after(trace).readable() <==> outstanding(trace) > 0,
    decreases trace.len(),
{
    lemma_read_guards_any_order(trace);
    if trace.len() > 0 {
        let init = trace.drop_last();
        assert forall|k: int| 0 <= k <= init.len() implies outstanding(#[trigger] init.take(k))
            >= 0 by {
            assert(init.take(k) == trace.take(k));
        }
        lemma_read_gives_what_was_stored(bytes, init);
    }
}

/// Writing through a write guard changes the byte written and no other.
pub proof fn lemma_put_changes_one_byte(s: StoreState, i: int, value: u8)
    requires
        0 <= i < s.bytes.len(),
    ensures
        s.put(i, value).bytes.len() == s.bytes.len(),
        s.put(i, value).bytes[i] == value,
        forall|j: int| 0 <= j < s.bytes.len() && j != i ==> s.put(i, value).bytes[j] == s.bytes[j],
        s.put(i, value).borrows == s.borrows,
{
}

/// A wiped store holds as many bytes as before, and every one of them is
/// zero.
pub proof fn lemma_wiped_is_all_zero(s: StoreState)
    ensures
        s.wiped().bytes.len() == s.bytes.len(),
        forall|i: int| 0 <= i < s.bytes.len() ==> s.wiped().bytes[i] == 0,
{
}

} // verus!
