use seckey::mem::fill_exact;
use seckey::{after_toggle, Outcome, Region, SecKey};

#[test]
fn fill_exact_sets_every_byte() {
    let mut v = [1u8, 2, 3];
    fill_exact(&mut v, 3, 0xaa);
    assert_eq!(v, [0xaa; 3]);

    let mut e: [u8; 0] = [];
    fill_exact(&mut e, 0, 1);
}

#[test]
fn failed_toggle_is_fatal() {
    assert_eq!(after_toggle(true), Outcome::Proceed);
    assert_eq!(after_toggle(false), Outcome::Abort);
}

#[test]
fn region_follows_the_reservation() {
    let r = Region::from_reserved(true, Vec::new(), 3).unwrap();
    assert_eq!(r.as_slice(), &[0u8; 3][..]);
    assert!(Region::from_reserved(false, Vec::new(), 3).is_none());
}

#[test]
fn with_asks_each_position() {
    let mut k = SecKey::with(4, |i| (10 + i) as u8).unwrap();
    let g = k.read();
    assert_eq!(g.bytes(&k), &[10u8, 11, 12, 13][..]);
    g.release(&mut k);

    assert!(SecKey::with_in(None, 4, |_| 1).is_none());
    assert!(SecKey::with(usize::MAX, |_| 1).is_none());
}

#[test]
fn empty_secrets_need_no_memory() {
    let r = Region::allocate(0).unwrap();
    assert_eq!(r.len(), 0);

    let none: [u8; 0] = [];
    let k = SecKey::from_ref(&none).unwrap();
    assert_eq!(k.len(), 0);

    let mut src: [u8; 0] = [];
    let k = SecKey::from_bytes(&mut src).unwrap();
    assert_eq!(k.len(), 0);

    let k = SecKey::with_len(9, 0).unwrap();
    assert_eq!(k.len(), 0);

    let k = SecKey::with(0, |_| 1).unwrap();
    assert_eq!(k.len(), 0);

    let mut text = String::new();
    let k = SecKey::from_str(&mut text).unwrap();
    assert_eq!(k.len(), 0);
    assert_eq!(k.destroy(), Vec::<u8>::new());
}
