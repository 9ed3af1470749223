//! An owned allocation with its size, wiped on its single release path.

use crate::mem::{fill_exact, filled, zeros};
use vstd::prelude::*;

verus! {

/// `Vec::into_boxed_slice` of the standard library, which Verus takes on
/// trust: the box holds the vector's elements, in order.
#[verifier::external_body]
fn into_boxed(v: Vec<u8>) -> (b: Box<[u8]>)
    ensures
        b@ == v@,
{
    v.into_boxed_slice()
}

/// `region` is an answer that `Region::allocate` can give when asked for
/// `len` bytes.
pub open spec fn allocated(len: usize, region: Option<Region>) -> bool {
    call_ensures(Region::allocate, (len,), region)
}

/// An owned run of bytes that is overwritten with zeros before its memory is
/// given back.
pub struct Region {
    data: Box<[u8]>,
    len: usize,
}

impl View for Region {
    type V = Seq<u8>;

    closed spec fn view(&self) -> Seq<u8> {
        self.data@
    }
}

impl Region {
    #[verifier::type_invariant]
    spec fn inv(self) -> bool {
        self.len == self.data@.len() && self.len <= isize::MAX
    }

    /// Fills `v`, which is empty and has room for `len` bytes, with zeros and
    /// makes a region of it. No secret is in the vector yet, so none is left
    /// behind should boxing it move the bytes.
    fn zeroed(v: Vec<u8>, len: usize) -> (r: Region)
        requires
            v@.len() == 0,
            len <= isize::MAX,
        ensures
            r@ == zeros(len as nat),
    {
        let mut v = v;
        let mut i: usize = 0;
        assert(v@ =~= zeros(0));
        while i < len
            invariant
                i <= len,
                v@ == zeros(i as nat),
            decreases len - i,
        {
            v.push(0);
            i = i + 1;
            assert(v@ =~= zeros(i as nat));
        }
        let data = into_boxed(v);
        Region { data, len }
    }

    /// A region of `len` zero bytes.
    pub fn new(len: usize) -> (r: Region)
        requires
            len <= isize::MAX,
        ensures
            r@ == zeros(len as nat),
    {
        Region::zeroed(Vec::with_capacity(len), len)
    }

    /// Makes a region of `len` zero bytes out of the empty vector `v`, where
    /// the allocator has `reserved` room for them; `None` where it has not.
    pub fn from_reserved(reserved: bool, v: Vec<u8>, len: usize) -> (r: Option<Region>)
        requires
            v@.len() == 0,
            len <= isize::MAX,
        ensures
            r is Some <==> reserved,
            r matches Some(g) ==> g@ == zeros(len as nat),
    {
        if reserved {
            Some(Region::zeroed(v, len))
        } else {
            None
        }
    }

    /// Asks the allocator for `len` bytes. `None` when it refuses, as it does
    /// any length above `isize::MAX`; otherwise a region of `len` zero bytes.
    /// An empty region takes no memory, so the allocator is not asked and the
    /// region is always had. For any other length an empty vector is asked to
    /// reserve `len` bytes, and there is a region exactly where it did.
    pub fn allocate(len: usize) -> (r: Option<Region>)
        ensures
            r matches Some(g) ==> g@ == zeros(len as nat),
            len == 0 ==> r is Some,
            len > isize::MAX ==> r is None,
            0 < len <= isize::MAX ==> exists|
                v: &mut Vec<u8>,
                res: Result<(), std::collections::TryReserveError>,
            |
                #[trigger] call_ensures(Vec::<u8>::try_reserve, (v, len), res) && v@.len() == 0
                    && (r is Some <==> res is Ok),
    {
        if len > isize::MAX as usize {
            return None;
        }
        let mut v: Vec<u8> = Vec::new();
        if len == 0 {
            return Region::from_reserved(true, v, len);
        }
        let res = v.try_reserve(len);
        Region::from_reserved(res.is_ok(), v, len)
    }

    /// Number of bytes in the region. No region is longer than `isize::MAX`.
    pub fn len(&self) -> (n: usize)
        ensures
            n == self@.len(),
            n <= isize::MAX,
    {
        proof {
            use_type_invariant(self);
        }
        self.len
    }

    /// The bytes of the region.
    pub fn as_slice(&self) -> (s: &[u8])
        ensures
            s@ == self@,
    {
        &*self.data
    }

    /// Writes `value` at position `i`.
    pub fn set(&mut self, i: usize, value: u8)
        requires
            i < old(self)@.len(),
        ensures
            final(self)@ == old(self)@.update(i as int, value),
    {
        proof {
            use_type_invariant(&*self);
        }
        self.data[i] = value;
    }

    /// Overwrites the region with the bytes of `src`.
    pub fn copy_from(&mut self, src: &[u8])
        requires
            src@.len() == old(self)@.len(),
        ensures
            final(self)@ == src@,
    {
        proof {
            use_type_invariant(&*self);
        }
        let n: usize = self.len;
        let mut i: usize = 0;
        while i < n
            invariant
                n == self.len,
                n == self.data@.len(),
                n <= isize::MAX,
                n == src@.len(),
                i <= n,
                forall|j: int| 0 <= j < i ==> self.data@[j] == src@[j],
            decreases n - i,
        {
            self.data[i] = src[i];
            i = i + 1;
        }
        assert(self.data@ =~= src@);
    }

    /// Sets every byte of the region to `value`.
    pub fn fill(&mut self, value: u8)
        ensures
            final(self)@ == filled(old(self)@.len(), value),
        opens_invariants none
        no_unwind
    {
        proof {
            use_type_invariant(&*self);
        }
        fill_exact(&mut *self.data, self.len, value);
    }

    /// Overwrites the region with zeros.
    pub fn wipe(&mut self)
        ensures
            final(self)@ == zeros(old(self)@.len()),
        opens_invariants none
        no_unwind
    {
        self.fill(0);
    }
}

impl Drop for Region {
    /// Wipes the region before its memory goes back to the allocator.
    fn drop(&mut self)
        ensures
            final(self)@ == zeros(old(self)@.len()),
        opens_invariants none
        no_unwind
    {
        self.wipe();
    }
}

} // verus!
