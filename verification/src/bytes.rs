//! A guarded store for a run of bytes of a given length.

use crate::mem::zeros;
use crate::prot::{Access, Borrows, Prot};
use crate::region::{allocated, Region};
use crate::state::{built_by, StoreState};
use vstd::prelude::*;

verus! {

/// A guarded store of bytes. The secret lives in a region of its own, and is
/// reached only through read and write guards that are counted.
///
/// The store keeps the protection that its guards call for. Its region is
/// plain heap memory, which the store wipes but cannot protect: page
/// protection is applied by whoever keeps the bytes in pages of their own,
/// guided by the same counter.
pub struct SecBytes {
    region: Region,
    borrows: Borrows,
}

impl View for SecBytes {
    type V = StoreState;

    closed spec fn view(&self) -> StoreState {
        StoreState { bytes: self.region@, borrows: self.borrows@ }
    }
}

impl SecBytes {
    /// Seals `region`: no guard outstanding, no access.
    fn seal(region: Region) -> (s: SecBytes)
        ensures
            s@ == StoreState::sealed(region@),
    {
        SecBytes { region, borrows: Borrows::new() }
    }

    /// Makes `region`, where there is one, a store of `len` zero bytes.
    pub fn new_in(region: Option<Region>, len: usize) -> (r: Option<SecBytes>)
        requires
            region matches Some(g) ==> g@.len() == len,
        ensures
            r is Some <==> region is Some,
            r matches Some(s) ==> s@ == StoreState::sealed(zeros(len as nat)),
    {
        match region {
            None => None,
            Some(g) => {
                let mut g = g;
                g.wipe();
                Some(SecBytes::seal(g))
            },
        }
    }

    /// A store of `len` zero bytes. `None` where no memory can be had.
    pub fn new(len: usize) -> (r: Option<SecBytes>)
        ensures
            exists|region: Option<Region>|
                #[trigger] allocated(len, region) && (r is Some <==> region is Some),
            len == 0 ==> r is Some,
            len > isize::MAX ==> r is None,
            r matches Some(s) ==> s@ == StoreState::sealed(zeros(len as nat)),
    {
        let region = Region::allocate(len);
        assert(allocated(len, region));
        SecBytes::new_in(region, len)
    }

    /// Fills `region`, where there is one, with `len` bytes, of which `f`
    /// gives the one at each position. Without a region `f` is not called.
    pub fn with_in<F: Fn(usize) -> u8>(region: Option<Region>, len: usize, f: F) -> (r: Option<
        SecBytes,
    >)
        requires
            region matches Some(g) ==> g@.len() == len,
            forall|i: usize| i < len ==> call_requires(f, (i,)),
        ensures
            r is Some <==> region is Some,
            r matches Some(s) ==> built_by(s@, len, f),
    {
        match region {
            None => None,
            Some(g) => {
                let mut g = g;
                let mut i: usize = 0;
                while i < len
                    invariant
                        i <= len,
                        g@.len() == len,
                        forall|j: usize| j < len ==> call_requires(f, (j,)),
                        forall|j: usize| j < i ==> call_ensures(f, (j,), #[trigger] g@[j as int]),
                    decreases len - i,
                {
                    let value: u8 = f(i);
                    g.set(i, value);
                    i = i + 1;
                }
                Some(SecBytes::seal(g))
            },
        }
    }

    /// A store of `len` bytes, of which `f` gives the one at each position.
    /// The bytes are written straight into the store's region. `None` where
    /// no memory can be had; `f` is then not called.
    pub fn with<F: Fn(usize) -> u8>(len: usize, f: F) -> (r: Option<SecBytes>)
        requires
            forall|i: usize| i < len ==> call_requires(f, (i,)),
        ensures
            exists|region: Option<Region>|
                #[trigger] allocated(len, region) && (r is Some <==> region is Some),
            len == 0 ==> r is Some,
            len > isize::MAX ==> r is None,
            r matches Some(s) ==> built_by(s@, len, f),
    {
        let region = Region::allocate(len);
        assert(allocated(len, region));
        SecBytes::with_in(region, len, f)
    }

    /// Takes a read guard. The first guard makes the store read-only; further
    /// read guards leave the protection as it is.
    pub fn read(&mut self) -> (guard: SecReadGuard)
        requires
            old(self)@.borrows.admits(Access::Read),
            old(self)@.borrows.count < usize::MAX,
        ensures
            final(self)@ == old(self)@.acquire(Access::Read),
            final(self)@.borrows.wf(),
    {
        let _ = self.borrows.acquire(Access::Read);
        SecReadGuard { token: () }
    }

    /// Takes the write guard, which makes the store readable and writable.
    pub fn write(&mut self) -> (guard: SecWriteGuard)
        requires
            old(self)@.borrows.admits(Access::Write),
        ensures
            final(self)@ == old(self)@.acquire(Access::Write),
            final(self)@.borrows.wf(),
    {
        let _ = self.borrows.acquire(Access::Write);
        SecWriteGuard { token: () }
    }

    /// Length of the secret in bytes.
    pub fn len(&self) -> (n: usize)
        ensures
            n == self@.bytes.len(),
    {
        self.region.len()
    }

    /// Guards outstanding.
    pub fn count(&self) -> (n: usize)
        ensures
            n == self@.borrows.count,
            self@.borrows.wf(),
    {
        self.borrows.count()
    }

    /// Protection in force: no access exactly while no guard is outstanding.
    pub fn protection(&self) -> (p: Prot)
        ensures
            p == self@.borrows.prot,
            self@.borrows.wf(),
    {
        self.borrows.protection()
    }

    /// Tears the store down, once every guard has been given back: the
    /// region is opened for reading and writing, the secret is overwritten
    /// with zeros, and what the region then holds is handed back for
    /// inspection.
    pub fn destroy(self) -> (remains: Vec<u8>)
        requires
            self@.borrows.count == 0,
        ensures
            remains@ == self@.wiped().bytes,
    {
        let SecBytes { region, borrows } = self;
        let mut region = region;
        let _ = borrows.teardown();
        region.wipe();
        vstd::slice::slice_to_vec(region.as_slice())
    }
}

/// Leave to read a store, until it is given back.
#[must_use]
pub struct SecReadGuard {
    token: (),
}

impl SecReadGuard {
    /// The secret of the store that this guard was taken from.
    pub fn bytes<'a>(&self, store: &'a SecBytes) -> (r: &'a [u8])
        requires
            store@.readable(),
        ensures
            r@ == store@.bytes,
    {
        store.region.as_slice()
    }

    /// Gives the guard back. When it was the last one, the store becomes
    /// inaccessible again.
    pub fn release(self, store: &mut SecBytes)
        requires
            old(store)@.borrows.count > 0,
        ensures
            final(store)@ == old(store)@.release(),
            final(store)@.borrows.wf(),
    {
        let _ = store.borrows.release();
    }
}

/// Leave to read and write a store, until it is given back.
#[must_use]
pub struct SecWriteGuard {
    token: (),
}

impl SecWriteGuard {
    /// The secret of the store that this guard was taken from.
    pub fn bytes<'a>(&self, store: &'a SecBytes) -> (r: &'a [u8])
        requires
            store@.readable(),
        ensures
            r@ == store@.bytes,
    {
        store.region.as_slice()
    }

    /// Writes `value` at position `i` of the secret.
    pub fn set(&mut self, store: &mut SecBytes, i: usize, value: u8)
        requires
            old(store)@.writable(),
            i < old(store)@.bytes.len(),
        ensures
            final(store)@ == old(store)@.put(i as int, value),
    {
        store.region.set(i, value);
    }

    /// Gives the guard back: the store becomes inaccessible again.
    pub fn release(self, store: &mut SecBytes)
        requires
            old(store)@.borrows.count > 0,
        ensures
            final(store)@ == old(store)@.release(),
            final(store)@.borrows.wf(),
    {
        let _ = store.borrows.release();
    }
}

} // verus!
