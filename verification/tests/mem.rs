use seckey::mem::{const_time_eq, const_time_order, fill};
use seckey::prot::BorrowState;
use seckey::{zero, Access, Borrows, CmpKey, Prot};
use std::cmp::Ordering;

#[test]
fn zero_wipes_every_byte() {
    let mut v = [1, 2, 3];
    zero(&mut v);
    assert_eq!(v, [0, 0, 0]);

    let v = &mut [1u8, 2, 3][..];
    zero(v);
    assert_eq!(v, [0, 0, 0]);

    let mut e: [u8; 0] = [];
    zero(&mut e);
}

#[test]
fn zero_stays_inside_the_slice() {
    let mut v = [9u8; 6];
    zero(&mut v[2..4]);
    assert_eq!(v, [9, 9, 0, 0, 9, 9]);
}

#[test]
fn fill_sets_every_byte() {
    let mut v = [1u8, 2, 3, 4];
    fill(&mut v, 0xd0);
    assert_eq!(v, [0xd0; 4]);
}

#[test]
fn const_time_eq_compares_prefixes() {
    assert!(const_time_eq(&[1, 2, 3], &[1, 2, 4], 2));
    assert!(!const_time_eq(&[1, 2, 3], &[1, 2, 4], 3));
    assert!(const_time_eq(&[1, 2, 3], &[9, 9], 0));
    assert!(!const_time_eq(&[0, 2], &[128, 2], 2));
    assert!(!const_time_eq(&[1, 2, 3], &[1, 7, 3], 3));
    assert!(const_time_eq(&[], &[], 0));
}

#[test]
fn const_time_order_signs() {
    assert_eq!(const_time_order(&[1, 2, 3], &[1, 2, 4], 3), -1);
    assert_eq!(const_time_order(&[1, 2, 4], &[1, 2, 3], 3), 1);
    assert_eq!(const_time_order(&[1, 2, 3], &[1, 2, 4], 2), 0);
    assert_eq!(const_time_order(&[], &[], 0), 0);
    // the earliest difference decides
    assert_eq!(const_time_order(&[1, 9, 0], &[2, 0, 9], 3), -1);
    assert_eq!(const_time_order(&[2, 0, 0], &[1, 9, 9], 3), 1);
    // bytes are unsigned
    assert_eq!(const_time_order(&[0xff], &[0x00], 1), 1);
    assert_eq!(const_time_order(&[0x7f], &[0x80], 1), -1);
}

#[test]
fn comparator_eq_is_an_equivalence() {
    let a = [3u8; 16];
    let b = [3u8; 16];
    let c = [2u8; 16];
    assert!(CmpKey(&a) == CmpKey(&a));
    assert!(CmpKey(&a) == CmpKey(&b));
    assert!(CmpKey(&b) == CmpKey(&a));
    assert!(CmpKey(&a) != CmpKey(&c));
    assert!(CmpKey(&c) != CmpKey(&a));

    // unequal lengths with a common prefix
    assert!(CmpKey(&a[..15]) != CmpKey(&a));
    assert!(CmpKey(&a) != CmpKey(&a[..15]));

    // empty inputs
    let e: [u8; 0] = [];
    assert!(CmpKey(&e) == CmpKey(&e));
    assert!(CmpKey(&e) != CmpKey(&a));
    assert!(CmpKey(&a) != CmpKey(&e));
}

#[test]
fn comparator_order_is_lexicographic() {
    let cases: [(&[u8], &[u8]); 9] = [
        (&[], &[]),
        (&[], &[0]),
        (&[0], &[]),
        (&[1, 2, 3], &[1, 2, 3]),
        (&[1, 2], &[1, 2, 3]),
        (&[1, 2, 3], &[1, 2]),
        (&[2, 2, 2], &[1, 1, 1, 1]),
        (&[0xff], &[0x01, 0x02]),
        (&[1, 2, 3], &[1, 3]),
    ];
    for (a, b) in cases {
        assert_eq!(CmpKey(a).cmp(&CmpKey(b)), a.cmp(b));
        assert_eq!(CmpKey(a).partial_cmp(&CmpKey(b)), Some(a.cmp(b)));
        assert_eq!(CmpKey(b).cmp(&CmpKey(a)), a.cmp(b).reverse());
        assert_eq!(CmpKey(a) == CmpKey(b), a == b);
        assert_eq!(CmpKey(a) < CmpKey(b), a < b);
        assert_eq!(CmpKey(a) >= CmpKey(b), a >= b);
    }
    assert_eq!(CmpKey(&[1, 2]).cmp(&CmpKey(&[1, 2, 0])), Ordering::Less);
    assert_eq!(CmpKey(&[1, 3]).cmp(&CmpKey(&[1, 2, 0])), Ordering::Greater);
    assert_eq!(CmpKey::from_ref(&[5]).cmp(&CmpKey(&[5])), Ordering::Equal);
}

#[test]
fn borrows_report_protection_changes() {
    let mut b = Borrows::new();
    assert_eq!(b.count(), 0);
    assert_eq!(b.protection(), Prot::NoAccess);

    assert_eq!(b.acquire(Access::Read), Some(Prot::ReadOnly));
    assert_eq!(b.acquire(Access::Read), None);
    assert_eq!(b.count(), 2);
    assert_eq!(b.protection(), Prot::ReadOnly);

    assert_eq!(b.release(), None);
    assert_eq!(b.protection(), Prot::ReadOnly);
    assert_eq!(b.release(), Some(Prot::NoAccess));
    assert_eq!(b.count(), 0);
    assert_eq!(b.protection(), Prot::NoAccess);

    assert_eq!(b.acquire(Access::Write), Some(Prot::ReadWrite));
    assert_eq!(b.protection(), Prot::ReadWrite);
    assert_eq!(b.release(), Some(Prot::NoAccess));

    assert_eq!(b.teardown(), Prot::ReadWrite);
    assert_eq!(Borrows::new().teardown(), Prot::ReadWrite);

    assert_eq!(Access::Read.prot(), Prot::ReadOnly);
    assert_eq!(Access::Write.prot(), Prot::ReadWrite);
    let _ = std::mem::size_of::<BorrowState>();
}
