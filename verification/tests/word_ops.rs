use bus_mapping::word::{word_add, word_mul_u64, word_sub, word_lt, Address, Word};

#[test]
fn word_add_carries_across_limbs() {
    let a = Word { l0: u64::MAX, l1: u64::MAX, l2: 0, l3: 0 };
    let b = Word { l0: 1, l1: 0, l2: 0, l3: 0 };
    let r = word_add(&a, &b).unwrap();
    assert_eq!(r, Word { l0: 0, l1: 0, l2: 1, l3: 0 });
}

#[test]
fn word_add_overflow_is_detected() {
    let a = Word { l0: u64::MAX, l1: u64::MAX, l2: u64::MAX, l3: u64::MAX };
    let b = Word { l0: 1, l1: 0, l2: 0, l3: 0 };
    assert!(word_add(&a, &b).is_none());
}

#[test]
fn word_sub_borrows_across_limbs() {
    let a = Word { l0: 0, l1: 0, l2: 1, l3: 0 };
    let b = Word { l0: 1, l1: 0, l2: 0, l3: 0 };
    let r = word_sub(&a, &b).unwrap();
    assert_eq!(r, Word { l0: u64::MAX, l1: u64::MAX, l2: 0, l3: 0 });
}

#[test]
fn word_sub_underflow_is_detected() {
    let a = Word::from_u64(5);
    let b = Word::from_u64(6);
    assert!(word_sub(&a, &b).is_none());
}

#[test]
fn word_mul_u64_exact_value() {
    // 2^64 * 3 lands exactly in the second limb
    let a = Word { l0: 0, l1: 1, l2: 0, l3: 0 };
    let r = word_mul_u64(&a, 3).unwrap();
    assert_eq!(r, Word { l0: 0, l1: 3, l2: 0, l3: 0 });
    let b = Word::from_u64(0x1_0000_0001);
    let r2 = word_mul_u64(&b, 0x1_0000_0001).unwrap();
    // (2^32 + 1)^2 = 2^64 + 2^33 + 1
    assert_eq!(r2, Word { l0: 0x2_0000_0001, l1: 1, l2: 0, l3: 0 });
}

#[test]
fn word_mul_u64_overflow_is_detected() {
    let a = Word { l0: 0, l1: 0, l2: 0, l3: u64::MAX };
    assert!(word_mul_u64(&a, 2).is_none());
}

#[test]
fn word_comparison_orders_by_value() {
    let small = Word { l0: u64::MAX, l1: 0, l2: 0, l3: 0 };
    let big = Word { l0: 0, l1: 1, l2: 0, l3: 0 };
    assert!(word_lt(&small, &big));
    assert!(!word_lt(&big, &small));
    assert!(!word_lt(&big, &big));
}

#[test]
fn word_to_be_bytes_layout() {
    let w = Word { l0: 0x0102030405060708, l1: 0, l2: 0, l3: 0xa1a2a3a4a5a6a7a8 };
    let bytes = w.to_be_bytes();
    assert_eq!(bytes.len(), 32);
    assert_eq!(&bytes[0..8], &[0xa1, 0xa2, 0xa3, 0xa4, 0xa5, 0xa6, 0xa7, 0xa8]);
    assert_eq!(&bytes[8..24], &[0u8; 16]);
    assert_eq!(&bytes[24..32], &[0x01, 0x02, 0x03, 0x04, 0x05, 0x06, 0x07, 0x08]);
}

#[test]
fn word_from_be_bytes_round_trip() {
    let w = Word { l0: 7, l1: 0x1122334455667788, l2: 0xdeadbeef, l3: 1 };
    let bytes = w.to_be_bytes();
    let r = Word::from_be_bytes(&bytes, 0);
    assert_eq!(r, w);
}

#[test]
fn address_packs_into_word() {
    let a = Address { hi: 0xcd234a47, mid: 0x1b72ba2f1ccf0a70, lo: 0xfcaba648a5eecd8d };
    let w = a.to_word();
    assert_eq!(w, Word { l0: 0xfcaba648a5eecd8d, l1: 0x1b72ba2f1ccf0a70, l2: 0xcd234a47, l3: 0 });
}

#[test]
fn precompile_addresses_are_one_through_nine() {
    assert!(Address { hi: 0, mid: 0, lo: 1 }.is_precompiled());
    assert!(Address { hi: 0, mid: 0, lo: 9 }.is_precompiled());
    assert!(!Address { hi: 0, mid: 0, lo: 0 }.is_precompiled());
    assert!(!Address { hi: 0, mid: 0, lo: 10 }.is_precompiled());
    assert!(!Address { hi: 1, mid: 0, lo: 5 }.is_precompiled());
}
