use std::cmp::Ordering;

use edrferd::hash::{cmp_hash, hash_add, Hash256};

fn small(n: u8) -> Hash256 {
    let mut bytes = [0u8; 32];
    bytes[31] = n;
    Hash256 { bytes }
}

#[test]
fn hash_add_small_values() {
    assert_eq!(hash_add(&small(1), &small(2)).bytes, small(3).bytes);
}

#[test]
fn hash_add_carries_between_bytes() {
    let r = hash_add(&small(0xff), &small(0x01));
    let mut expected = [0u8; 32];
    expected[30] = 1;
    assert_eq!(r.bytes, expected);
}

#[test]
fn hash_add_wraps_at_two_to_the_256() {
    let max = Hash256 { bytes: [0xff; 32] };
    assert_eq!(hash_add(&max, &small(1)).bytes, [0u8; 32]);
    assert_eq!(hash_add(&max, &max).bytes, {
        let mut b = [0xff; 32];
        b[31] = 0xfe;
        b
    });
}

#[test]
fn hash_add_commutes_and_associates() {
    let a = Hash256 { bytes: [0x9c; 32] };
    let mut bb = [0u8; 32];
    bb[0] = 0x80;
    bb[17] = 0x33;
    let b = Hash256 { bytes: bb };
    let c = Hash256 { bytes: [0x71; 32] };
    assert_eq!(hash_add(&a, &b).bytes, hash_add(&b, &a).bytes);
    assert_eq!(
        hash_add(&hash_add(&a, &b), &c).bytes,
        hash_add(&a, &hash_add(&b, &c)).bytes
    );
}

#[test]
fn cmp_hash_is_big_endian() {
    let mut hi = [0u8; 32];
    hi[0] = 1;
    let hi = Hash256 { bytes: hi };
    let lo = small(0xff);
    assert_eq!(cmp_hash(&hi, &lo), Ordering::Greater);
    assert_eq!(cmp_hash(&lo, &hi), Ordering::Less);
    assert_eq!(cmp_hash(&lo, &small(0xff)), Ordering::Equal);
}
