use seckey::{CmpKey, NeedsDrop, TempKey};

#[derive(Debug)]
struct I32Array([u8; 4]);

impl I32Array {
    fn new(n: i32) -> I32Array {
        I32Array(n.to_le_bytes())
    }
}

impl AsRef<[u8]> for I32Array {
    fn as_ref(&self) -> &[u8] {
        &self.0[..]
    }
}

struct Guarded(u32);

impl Drop for Guarded {
    fn drop(&mut self) {
        self.0 = 0;
    }
}

#[test]
fn cmpkey_cmp_test() {
    assert!(CmpKey(I32Array::new(1).as_ref()) > CmpKey(I32Array::new(0).as_ref()));
    assert!(CmpKey(I32Array::new(0).as_ref()) < CmpKey(I32Array::new(1).as_ref()));
    assert!(CmpKey(I32Array::new(0).as_ref()) == CmpKey(I32Array::new(0).as_ref()));
    assert!(CmpKey(I32Array::new(1).as_ref()) != CmpKey(I32Array::new(0).as_ref()));

    assert!(CmpKey(I32Array::new(-1).as_ref()) > CmpKey(I32Array::new(0).as_ref()));
    // ^- NOTE 4294967295 > 0

    let a = [2; 3];
    let b = [1; 4];
    assert_eq!(&a[..] > &b[..], CmpKey(&a[..]) > CmpKey(&b[..]));
}

#[test]
fn tempkey_slice_test() {
    // fixed size
    let mut key = [42u8; 32];

    {
        let mut tempkey = TempKey::new(&mut key);
        assert!(CmpKey(&tempkey[..]) == CmpKey(&[42u8; 32][..]));

        tempkey.set(1, 0);
        let mut res = [42u8; 32];
        res[1] = 0;
        assert!(CmpKey(&tempkey[..]) == CmpKey(&res[..]));
    }

    assert_eq!(key, [0; 32]);

    // dyn size
    let mut key = [42u8; 32];

    {
        let mut tempkey = TempKey::new(&mut key[1..7]);
        assert!(CmpKey(&tempkey[..]) == CmpKey(&[42; 6][..]));

        tempkey.set(1, 0);
        assert!(CmpKey(&tempkey[..]) == CmpKey(&[42, 0, 42, 42, 42, 42][..]));
    }

    assert_eq!(&key[1..7], [0; 6]);
    assert_eq!(key[0], 42);
    assert_eq!(key[7], 42);
}

#[test]
fn tempkey_len_and_empty() {
    let mut key = [7u8; 5];
    {
        let tempkey = TempKey::new(&mut key);
        assert_eq!(tempkey.len(), 5);
        assert_eq!(&tempkey[..], &[7u8; 5][..]);
    }
    assert_eq!(key, [0; 5]);

    let mut none: [u8; 0] = [];
    {
        let tempkey = TempKey::new(&mut none);
        assert_eq!(tempkey.len(), 0);
    }
}

#[test]
fn tempkey_wiped_on_early_exit() {
    fn use_and_leave(buf: &mut [u8], early: bool) -> u8 {
        let key = TempKey::new(buf);
        if early {
            return key[0];
        }
        key[1]
    }

    let mut a = [5u8, 6, 7];
    assert_eq!(use_and_leave(&mut a, true), 5);
    assert_eq!(a, [0, 0, 0]);

    let mut b = [5u8, 6, 7];
    assert_eq!(use_and_leave(&mut b, false), 6);
    assert_eq!(b, [0, 0, 0]);
}

#[test]
fn try_new_refuses_types_with_destructor() {
    let mut bytes = [1u8, 2, 3, 4];
    assert!(matches!(TempKey::try_new::<Guarded>(&mut bytes), Err(NeedsDrop)));
    assert_eq!(bytes, [1, 2, 3, 4]);

    assert!(matches!(TempKey::try_new::<Vec<u8>>(&mut bytes), Err(NeedsDrop)));
    assert!(matches!(TempKey::try_new::<[Guarded; 2]>(&mut bytes), Err(NeedsDrop)));
    assert_eq!(bytes, [1, 2, 3, 4]);
}

#[test]
fn try_new_wraps_plain_types() {
    let mut bytes = [1u8, 2, 3, 4];
    {
        let key = TempKey::try_new::<u32>(&mut bytes).unwrap();
        assert_eq!(&key[..], &[1u8, 2, 3, 4][..]);
    }
    assert_eq!(bytes, [0; 4]);

    let mut bytes = [9u8; 8];
    {
        let key = TempKey::try_new::<[u16; 4]>(&mut bytes).unwrap();
        assert_eq!(key.len(), 8);
    }
    assert_eq!(bytes, [0; 8]);

    let mut bytes = [9u8; 3];
    assert!(TempKey::try_new::<[u8; 3]>(&mut bytes).is_ok());
    assert!(TempKey::try_new::<(u8, i64, char)>(&mut bytes).is_ok());
}

#[test]
fn try_new_for_follows_the_flag() {
    let mut bytes = [1u8, 2];
    assert!(matches!(TempKey::try_new_for(true, &mut bytes), Err(NeedsDrop)));
    assert_eq!(bytes, [1, 2]);
    {
        let key = TempKey::try_new_for(false, &mut bytes).unwrap();
        assert_eq!(&key[..], &[1u8, 2][..]);
    }
    assert_eq!(bytes, [0, 0]);
}
