//! A wrapper for a secret that lives in memory of the caller: the bytes are
//! wiped when the wrapper goes out of scope.

use crate::mem::{fill_exact, zeros};
use vstd::prelude::*;

verus! {

/// `core::mem::needs_drop` of the standard library. Nothing is claimed of its
/// result, which depends on the type alone.
pub assume_specification<T: ?Sized>[ core::mem::needs_drop::<T> ]() -> (r: bool)
;

/// Refusal to wrap a value whose type has a destructor of its own: the wipe
/// would run ahead of that destructor, or not be the last to touch the value.
#[derive(Clone, Copy, Debug, PartialEq, Eq, Structural)]
pub struct NeedsDrop;

/// Bytes borrowed from the caller, wiped when the wrapper is dropped.
pub struct TempKey<'a> {
    data: &'a mut [u8],
    len: usize,
}

impl<'a> View for TempKey<'a> {
    type V = Seq<u8>;

    closed spec fn view(&self) -> Seq<u8> {
        self.data@
    }
}

impl<'a> TempKey<'a> {
    #[verifier::type_invariant]
    spec fn inv(self) -> bool {
        self.len == self.data@.len()
    }

    /// Wraps `t`. Bytes have no destructor, so this never fails.
    pub fn new(t: &'a mut [u8]) -> (r: TempKey<'a>)
        ensures
            r@ == old(t)@,
    {
        let len = t.len();
        TempKey { data: t, len }
    }

    /// Wraps `t` unless `needs_drop` says that the value behind the bytes has
    /// a destructor of its own.
    pub fn try_new_for(needs_drop: bool, t: &'a mut [u8]) -> (r: Result<TempKey<'a>, NeedsDrop>)
        ensures
            r is Err <==> needs_drop,
            r matches Ok(k) ==> k@ == old(t)@,
            r is Err ==> final(t)@ == old(t)@,
    {
        if needs_drop {
            Err(NeedsDrop)
        } else {
            Ok(TempKey::new(t))
        }
    }

    /// Wraps `t`, the memory of a value of type `T`, unless `T` has a
    /// destructor of its own.
    pub fn try_new<T>(t: &'a mut [u8]) -> (r: Result<TempKey<'a>, NeedsDrop>)
        ensures
            exists|needs_drop: bool|
                #[trigger] call_ensures(core::mem::needs_drop::<T>, (), needs_drop) && (r is Err
                    <==> needs_drop),
            r matches Ok(k) ==> k@ == old(t)@,
            r is Err ==> final(t)@ == old(t)@,
    {
        let needs_drop = core::mem::needs_drop::<T>();
        TempKey::try_new_for(needs_drop, t)
    }

    /// Number of bytes wrapped.
    pub fn len(&self) -> (n: usize)
        ensures
            n == self@.len(),
    {
        proof {
            use_type_invariant(self);
        }
        self.len
    }

    /// Writes `value` at position `i`.
    pub fn set(&mut self, i: usize, value: u8)
        requires
            i < old(self)@.len(),
        ensures
            final(self)@ == old(self)@.update(i as int, value),
    {
        proof {
            use_type_invariant(&*self);
        }
        self.data[i] = value;
    }
}

impl<'a> core::ops::Deref for TempKey<'a> {
    type Target = [u8];

    /// The bytes wrapped.
    fn deref(&self) -> (r: &[u8])
        ensures
            r@ == self@,
    {
        &*self.data
    }
}

impl<'a> Drop for TempKey<'a> {
    /// Overwrites the wrapped bytes, and no others, with zeros.
    fn drop(&mut self)
        ensures
            final(self)@ == zeros(old(self)@.len()),
        opens_invariants none
        no_unwind
    {
        proof {
            use_type_invariant(&*self);
        }
        fill_exact(&mut *self.data, self.len, 0);
    }
}

} // verus!
