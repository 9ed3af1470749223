//! A guarded store for a secret of any length, built from a value, a slice or
//! a string.

use crate::mem::{filled, zero, zeros};
use crate::prot::{Access, Borrows, Prot};
use crate::region::{allocated, Region};
use crate::state::{built_by, StoreState};
use vstd::prelude::*;
use vstd::utf8::{encode_utf8, pop_first_scalar, valid_utf8};

verus! {

/// `String::into_bytes` of the standard library, which Verus takes on trust:
/// the vector holds the UTF-8 encoding of the string.
#[verifier::external_body]
fn string_into_bytes(s: String) -> (v: Vec<u8>)
    ensures
        v@ == encode_utf8(s@),
{
    s.into_bytes()
}

/// `String::from_utf8` of the standard library, which Verus takes on trust:
/// it gives a string wherever the bytes are valid UTF-8, and the string then
/// is made of those very bytes.
#[verifier::external_body]
fn string_from_utf8(v: Vec<u8>) -> (r: Option<String>)
    ensures
        valid_utf8(v@) ==> r is Some,
        r matches Some(s) ==> encode_utf8(s@) == v@,
{
    String::from_utf8(v).ok()
}

/// Zero bytes are valid UTF-8.
proof fn lemma_zeros_valid_utf8(n: nat)
    ensures
        valid_utf8(zeros(n)),
    decreases n,
{
    if n > 0 {
        let bytes = zeros(n);
        assert(bytes[0] == 0u8);
        assert(0u8 & 0x7f == 0u8) by (bit_vector);
        assert(pop_first_scalar(bytes) =~= zeros((n - 1) as nat));
        lemma_zeros_valid_utf8((n - 1) as nat);
    }
}

/// A guarded store. The secret lives in a region of its own, and is reached
/// only through read and write guards that are counted.
///
/// The store keeps the protection that its guards call for. Its region is
/// plain heap memory, which the store wipes but cannot protect: page
/// protection is applied by whoever keeps the bytes in pages of their own,
/// guided by the same counter.
pub struct SecKey {
    region: Region,
    borrows: Borrows,
}

impl View for SecKey {
    type V = StoreState;

    closed spec fn view(&self) -> StoreState {
        StoreState { bytes: self.region@, borrows: self.borrows@ }
    }
}

impl SecKey {
    /// Seals `region`: no guard outstanding, no access.
    fn seal(region: Region) -> (k: SecKey)
        ensures
            k@ == StoreState::sealed(region@),
    {
        SecKey { region, borrows: Borrows::new() }
    }

    /// Moves `t` into `region`, where there is one, and wipes the copy that
    /// was handed in. Without a region `t` comes back as it was.
    pub fn new_in<const N: usize>(region: Option<Region>, t: [u8; N]) -> (r: Result<
        SecKey,
        [u8; N],
    >)
        requires
            region matches Some(g) ==> g@.len() == N,
        ensures
            r is Ok <==> region is Some,
            r matches Ok(k) ==> k@ == StoreState::sealed(t@),
            r matches Err(e) ==> e == t,
    {
        match region {
            None => Err(t),
            Some(g) => {
                let mut g = g;
                g.copy_from(t.as_slice());
                let mut t = t;
                zero(&mut t);
                Ok(SecKey::seal(g))
            },
        }
    }

    /// Moves `t` into a store of its own and wipes the copy that was handed
    /// in. Where no memory can be had, `t` comes back as it was, for the
    /// caller to dispose of.
    pub fn new<const N: usize>(t: [u8; N]) -> (r: Result<SecKey, [u8; N]>)
        ensures
            exists|region: Option<Region>|
                #[trigger] allocated(N, region) && (r is Ok <==> region is Some),
            N == 0 ==> r is Ok,
            r matches Ok(k) ==> k@ == StoreState::sealed(t@),
            r matches Err(e) ==> e == t,
    {
        let region = Region::allocate(N);
        assert(allocated(N, region));
        SecKey::new_in(region, t)
    }

    /// Copies `t` into `region`, where there is one. `t` stays as it is: to
    /// wipe it is the caller's part.
    pub fn from_ref_in(region: Option<Region>, t: &[u8]) -> (r: Option<SecKey>)
        requires
            region matches Some(g) ==> g@.len() == t@.len(),
        ensures
            r is Some <==> region is Some,
            r matches Some(k) ==> k@ == StoreState::sealed(t@),
    {
        match region {
            None => None,
            Some(g) => {
                let mut g = g;
                g.copy_from(t);
                Some(SecKey::seal(g))
            },
        }
    }

    /// Copies `t` into a store of its own. `t` stays as it is: to wipe it is
    /// the caller's part. `None` where no memory can be had.
    pub fn from_ref(t: &[u8]) -> (r: Option<SecKey>)
        ensures
            exists|region: Option<Region>|
                #[trigger] allocated(t@.len() as usize, region) && (r is Some <==> region is Some),
            t@.len() == 0 ==> r is Some,
            r matches Some(k) ==> k@ == StoreState::sealed(t@),
    {
        let region = Region::allocate(t.len());
        assert(allocated(t@.len() as usize, region));
        SecKey::from_ref_in(region, t)
    }

    /// Moves the bytes of `src` into `region`, where there is one. On success
    /// `src` is wiped; without a region `src` is untouched.
    pub fn from_bytes_in(region: Option<Region>, src: &mut [u8]) -> (r: Option<SecKey>)
        requires
            region matches Some(g) ==> g@.len() == old(src)@.len(),
        ensures
            r is Some <==> region is Some,
            r matches Some(k) ==> k@ == StoreState::sealed(old(src)@),
            r is Some ==> final(src)@ == zeros(old(src)@.len()),
            r is None ==> final(src)@ == old(src)@,
    {
        match region {
            None => None,
            Some(g) => {
                let mut g = g;
                g.copy_from(src);
                zero(src);
                Some(SecKey::seal(g))
            },
        }
    }

    /// Moves the bytes of `src` into a store of its own. On success `src` is
    /// wiped; where no memory can be had the result is `None` and `src` is
    /// untouched.
    pub fn from_bytes(src: &mut [u8]) -> (r: Option<SecKey>)
        ensures
            exists|region: Option<Region>|
                #[trigger] allocated(old(src)@.len() as usize, region) && (r is Some
                    <==> region is Some),
            old(src)@.len() == 0 ==> r is Some,
            r matches Some(k) ==> k@ == StoreState::sealed(old(src)@),
            r is Some ==> final(src)@ == zeros(old(src)@.len()),
            r is None ==> final(src)@ == old(src)@,
    {
        let region = Region::allocate(src.len());
        assert(allocated(old(src)@.len() as usize, region));
        SecKey::from_bytes_in(region, src)
    }

    /// Fills `region`, where there is one, with `len` bytes of `val`.
    pub fn with_len_in(region: Option<Region>, val: u8, len: usize) -> (r: Option<SecKey>)
        requires
            region matches Some(g) ==> g@.len() == len,
        ensures
            r is Some <==> region is Some,
            r matches Some(k) ==> k@ == StoreState::sealed(filled(len as nat, val)),
    {
        match region {
            None => None,
            Some(g) => {
                let mut g = g;
                g.fill(val);
                Some(SecKey::seal(g))
            },
        }
    }

    /// A store of `len` bytes, each of them `val`. `None` where no memory can
    /// be had.
    pub fn with_len(val: u8, len: usize) -> (r: Option<SecKey>)
        ensures
            exists|region: Option<Region>|
                #[trigger] allocated(len, region) && (r is Some <==> region is Some),
            len == 0 ==> r is Some,
            r matches Some(k) ==> k@ == StoreState::sealed(filled(len as nat, val)),
            len > isize::MAX ==> r is None,
    {
        let region = Region::allocate(len);
        assert(allocated(len, region));
        SecKey::with_len_in(region, val, len)
    }

    /// Fills `region`, where there is one, with `len` bytes, of which `f`
    /// gives the one at each position.
    pub fn with_in<F: Fn(usize) -> u8>(region: Option<Region>, len: usize, f: F) -> (r: Option<
        SecKey,
    >)
        requires
            region matches Some(g) ==> g@.len() == len,
            forall|i: usize| i < len ==> call_requires(f, (i,)),
        ensures
            r is Some <==> region is Some,
            r matches Some(k) ==> built_by(k@, len, f),
    {
        match region {
            None => None,
            Some(g) => {
                let mut g = g;
                let mut i: usize = 0;
                while i < len
                    invariant
                        i <= len,
                        g@.len() == len,
                        forall|j: usize| j < len ==> call_requires(f, (j,)),
                        forall|j: usize| j < i ==> call_ensures(f, (j,), #[trigger] g@[j as int]),
                    decreases len - i,
                {
                    let value: u8 = f(i);
                    g.set(i, value);
                    i = i + 1;
                }
                Some(SecKey::seal(g))
            },
        }
    }

    /// A store of `len` bytes, of which `f` gives the one at each position.
    /// The bytes are written straight into the store's region. `None` where
    /// no memory can be had.
    pub fn with<F: Fn(usize) -> u8>(len: usize, f: F) -> (r: Option<SecKey>)
        requires
            forall|i: usize| i < len ==> call_requires(f, (i,)),
        ensures
            exists|region: Option<Region>|
                #[trigger] allocated(len, region) && (r is Some <==> region is Some),
            len == 0 ==> r is Some,
            r matches Some(k) ==> built_by(k@, len, f),
            len > isize::MAX ==> r is None,
    {
        let region = Region::allocate(len);
        assert(allocated(len, region));
        SecKey::with_in(region, len, f)
    }

    /// Moves the text of `src` into `region`, where there is one. On success
    /// `src` is left holding zero bytes of the same length; without a region
    /// `src` is untouched.
    pub fn from_str_in(region: Option<Region>, src: &mut String) -> (r: Option<SecKey>)
        requires
            region matches Some(g) ==> g@.len() == encode_utf8(old(src)@).len(),
        ensures
            r is Some <==> region is Some,
            r matches Some(k) ==> k@ == StoreState::sealed(encode_utf8(old(src)@)),
            r is Some ==> encode_utf8(final(src)@) == zeros(encode_utf8(old(src)@).len()),
            r is None ==> final(src)@ == old(src)@,
    {
        match region {
            None => None,
            Some(g) => {
                let mut g = g;
                g.copy_from(src.as_str().as_bytes());
                let mut taken = String::new();
                core::mem::swap(src, &mut taken);
                let mut bytes = string_into_bytes(taken);
                zero(bytes.as_mut_slice());
                proof {
                    lemma_zeros_valid_utf8(bytes@.len());
                }
                match string_from_utf8(bytes) {
                    Some(zeroed) => {
                        *src = zeroed;
                    },
                    None => {},
                }
                Some(SecKey::seal(g))
            },
        }
    }

    /// Moves the text of `src` into a store of its own. On success `src` is
    /// left holding zero bytes of the same length; where no memory can be had
    /// the result is `None` and `src` is untouched.
    pub fn from_str(src: &mut String) -> (r: Option<SecKey>)
        ensures
            exists|region: Option<Region>|
                #[trigger] allocated(encode_utf8(old(src)@).len() as usize, region) && (r is Some
                    <==> region is Some),
            old(src)@.len() == 0 ==> r is Some,
            r matches Some(k) ==> k@ == StoreState::sealed(encode_utf8(old(src)@)),
            r is Some ==> encode_utf8(final(src)@) == zeros(encode_utf8(old(src)@).len()),
            r is None ==> final(src)@ == old(src)@,
    {
        let n: usize = src.as_str().as_bytes().len();
        let region = Region::allocate(n);
        assert(allocated(encode_utf8(old(src)@).len() as usize, region));
        SecKey::from_str_in(region, src)
    }

    /// Gives one guard back: on the step down to no guard the store becomes
    /// inaccessible again.
    fn lock(&mut self)
        requires
            old(self)@.borrows.count > 0,
        ensures
            final(self)@ == old(self)@.release(),
            final(self)@.borrows.wf(),
    {
        let _ = self.borrows.release();
    }

    /// Takes a read guard. The first guard makes the store read-only; further
    /// read guards leave the protection as it is.
    pub fn read(&mut self) -> (guard: SecReadGuard)
        requires
            old(self)@.borrows.admits(Access::Read),
            old(self)@.borrows.count < usize::MAX,
        ensures
            final(self)@ == old(self)@.acquire(Access::Read),
            final(self)@.borrows.wf(),
    {
        let _ = self.borrows.acquire(Access::Read);
        SecReadGuard { token: () }
    }

    /// Takes the write guard, which makes the store readable and writable.
    pub fn write(&mut self) -> (guard: SecWriteGuard)
        requires
            old(self)@.borrows.admits(Access::Write),
        ensures
            final(self)@ == old(self)@.acquire(Access::Write),
            final(self)@.borrows.wf(),
    {
        let _ = self.borrows.acquire(Access::Write);
        SecWriteGuard { token: () }
    }

    /// Length of the secret in bytes.
    pub fn len(&self) -> (n: usize)
        ensures
            n == self@.bytes.len(),
    {
        self.region.len()
    }

    /// Guards outstanding.
    pub fn count(&self) -> (n: usize)
        ensures
            n == self@.borrows.count,
            self@.borrows.wf(),
    {
        self.borrows.count()
    }

    /// Protection in force: no access exactly while no guard is outstanding.
    pub fn protection(&self) -> (p: Prot)
        ensures
            p == self@.borrows.prot,
            self@.borrows.wf(),
    {
        self.borrows.protection()
    }

    /// Tears the store down, once every guard has been given back: the
    /// region is opened for reading and writing, the secret is overwritten
    /// with zeros, and what the region then holds is handed back for
    /// inspection.
    pub fn destroy(self) -> (remains: Vec<u8>)
        requires
            self@.borrows.count == 0,
        ensures
            remains@ == self@.wiped().bytes,
    {
        let SecKey { region, borrows } = self;
        let mut region = region;
        let _ = borrows.teardown();
        region.wipe();
        vstd::slice::slice_to_vec(region.as_slice())
    }
}

/// Leave to read a store, until it is given back.
#[must_use]
pub struct SecReadGuard {
    token: (),
}

impl SecReadGuard {
    /// The secret of the store that this guard was taken from.
    pub fn bytes<'a>(&self, key: &'a SecKey) -> (r: &'a [u8])
        requires
            key@.readable(),
        ensures
            r@ == key@.bytes,
    {
        key.region.as_slice()
    }

    /// Gives the guard back. When it was the last one, the store becomes
    /// inaccessible again.
    pub fn release(self, key: &mut SecKey)
        requires
            old(key)@.borrows.count > 0,
        ensures
            final(key)@ == old(key)@.release(),
            final(key)@.borrows.wf(),
    {
        key.lock();
    }
}

/// Leave to read and write a store, until it is given back.
#[must_use]
pub struct SecWriteGuard {
    token: (),
}

impl SecWriteGuard {
    /// The secret of the store that this guard was taken from.
    pub fn bytes<'a>(&self, key: &'a SecKey) -> (r: &'a [u8])
        requires
            key@.readable(),
        ensures
            r@ == key@.bytes,
    {
        key.region.as_slice()
    }

    /// Writes `value` at position `i` of the secret.
    pub fn set(&mut self, key: &mut SecKey, i: usize, value: u8)
        requires
            old(key)@.writable(),
            i < old(key)@.bytes.len(),
        ensures
            final(key)@ == old(key)@.put(i as int, value),
    {
        key.region.set(i, value);
    }

    /// Gives the guard back. When it was the last one, the store becomes
    /// inaccessible again.
    pub fn release(self, key: &mut SecKey)
        requires
            old(key)@.borrows.count > 0,
        ensures
            final(key)@ == old(key)@.release(),
            final(key)@.borrows.wf(),
    {
        key.lock();
    }
}

} // verus!
