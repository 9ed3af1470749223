//! An owned buffer of secret bytes: compared in constant time, wiped when
//! dropped.

use crate::cmpkey::{lex_order, CmpKey};
use crate::region::Region;
use core::cmp::Ordering;
use vstd::prelude::*;

verus! {

/// An owned copy of a byte string. Its `==` and `<` are those of `CmpKey`,
/// and its memory is wiped before it is given back.
pub struct Bytes {
    region: Region,
}

impl View for Bytes {
    type V = Seq<u8>;

    closed spec fn view(&self) -> Seq<u8> {
        self.region@
    }
}

impl Bytes {
    /// A buffer holding a copy of `input`.
    pub fn new(input: &[u8]) -> (r: Bytes)
        requires
            input@.len() <= isize::MAX,
        ensures
            r@ == input@,
    {
        let mut region = Region::new(input.len());
        region.copy_from(input);
        Bytes { region }
    }

    /// Number of bytes held.
    pub fn len(&self) -> (n: usize)
        ensures
            n == self@.len(),
    {
        self.region.len()
    }

    /// The bytes held.
    pub fn as_slice(&self) -> (s: &[u8])
        ensures
            s@ == self@,
    {
        self.region.as_slice()
    }
}

impl core::ops::Deref for Bytes {
    type Target = [u8];

    /// The bytes held.
    fn deref(&self) -> (s: &[u8])
        ensures
            s@ == self@,
    {
        self.region.as_slice()
    }
}

impl Clone for Bytes {
    /// A second buffer with the same bytes.
    fn clone(&self) -> (r: Bytes)
        ensures
            r@ == self@,
    {
        let mut region = Region::new(self.region.len());
        region.copy_from(self.region.as_slice());
        Bytes { region }
    }
}

impl PartialEq for Bytes {
    fn eq(&self, rhs: &Bytes) -> (r: bool) {
        CmpKey(self.region.as_slice()) == CmpKey(rhs.region.as_slice())
    }
}

impl vstd::std_specs::cmp::PartialEqSpecImpl for Bytes {
    open spec fn obeys_eq_spec() -> bool {
        true
    }

    open spec fn eq_spec(&self, rhs: &Bytes) -> bool {
        self@ == rhs@
    }
}

impl Eq for Bytes {
}

impl<const N: usize> PartialEq<[u8; N]> for Bytes {
    fn eq(&self, rhs: &[u8; N]) -> (r: bool) {
        CmpKey(self.region.as_slice()) == CmpKey(rhs.as_slice())
    }
}

impl<const N: usize> vstd::std_specs::cmp::PartialEqSpecImpl<[u8; N]> for Bytes {
    open spec fn obeys_eq_spec() -> bool {
        true
    }

    open spec fn eq_spec(&self, rhs: &[u8; N]) -> bool {
        self@ == rhs@
    }
}

impl PartialOrd for Bytes {
    fn partial_cmp(&self, rhs: &Bytes) -> (r: Option<Ordering>) {
        Some(CmpKey(self.region.as_slice()).cmp(&CmpKey(rhs.region.as_slice())))
    }
}

impl vstd::std_specs::cmp::PartialOrdSpecImpl for Bytes {
    open spec fn obeys_partial_cmp_spec() -> bool {
        true
    }

    open spec fn partial_cmp_spec(&self, rhs: &Bytes) -> Option<Ordering> {
        Some(lex_order(self@, rhs@))
    }
}

} // verus!
