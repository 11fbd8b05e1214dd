use ecc_circuit::field::{Fq, Fr};

#[test]
fn fq_from_raw_reduces_the_modulus_to_zero() {
    let modulus = [
        0x3c208c16d87cfd47,
        0x97816a916871ca8d,
        0xb85045b68181585d,
        0x30644e72e131a029,
    ];
    assert_eq!(Fq::from_raw(modulus), Fq::zero());
    let mut above = modulus;
    above[0] += 5;
    assert_eq!(Fq::from_raw(above), Fq::from_u64(5));
}

#[test]
fn fq_sub_wraps_around_the_modulus() {
    let minus_one = Fq::zero().sub(&Fq::one());
    assert_eq!(
        minus_one.limbs(),
        [
            0x3c208c16d87cfd46,
            0x97816a916871ca8d,
            0xb85045b68181585d,
            0x30644e72e131a029
        ]
    );
    assert_eq!(minus_one.mul(&minus_one), Fq::one());
}

#[test]
fn fq_mul_is_not_the_identity_on_its_argument() {
    let a = Fq::from_u64(6);
    let b = Fq::from_u64(7);
    assert_eq!(a.mul(&b), Fq::from_u64(42));
    assert_eq!(b.sub(&a), Fq::one());
}

#[test]
fn fq_invert_gives_the_inverse_and_nothing_for_zero() {
    assert!(Fq::zero().invert().is_none());
    let a = Fq::from_u64(123456789);
    let inv = a.invert().unwrap();
    assert_eq!(a.mul(&inv), Fq::one());
    assert_eq!(Fq::one().invert().unwrap(), Fq::one());
}

#[test]
fn fq_bytes_round_trip() {
    let a = Fq::from_raw([1, 2, 3, 4]);
    let bytes = a.to_bytes();
    assert_eq!(bytes[0], 1);
    assert_eq!(bytes[8], 2);
    assert_eq!(bytes[16], 3);
    assert_eq!(bytes[24], 4);
    assert_eq!(Fq::from_bytes(&bytes), Some(a));
}

#[test]
fn fq_from_bytes_rejects_what_is_not_below_the_modulus() {
    assert_eq!(Fq::from_bytes(&[0xff; 32]), None);
    let mut modulus = [0u8; 32];
    let limbs: [u64; 4] = [
        0x3c208c16d87cfd47,
        0x97816a916871ca8d,
        0xb85045b68181585d,
        0x30644e72e131a029,
    ];
    for k in 0..4 {
        modulus[8 * k..8 * k + 8].copy_from_slice(&limbs[k].to_le_bytes());
    }
    assert_eq!(Fq::from_bytes(&modulus), None);
    modulus[0] -= 1;
    assert!(Fq::from_bytes(&modulus).is_some());
}

#[test]
fn fr_add_and_mul() {
    let a = Fr::from_u64(u64::MAX);
    let b = Fr::from_u64(2);
    assert_eq!(a.add(&b).limbs(), [1, 1, 0, 0]);
    assert_eq!(a.mul(&b).limbs(), [u64::MAX - 1, 1, 0, 0]);
    let minus_one = Fr::from_raw([
        0x43e1f593f0000000,
        0x2833e84879b97091,
        0xb85045b68181585d,
        0x30644e72e131a029,
    ]);
    assert_eq!(minus_one.add(&Fr::one()), Fr::zero());
    assert_eq!(minus_one.mul(&minus_one), Fr::one());
}

#[test]
fn fr_from_u128_splits_into_two_limbs() {
    let v: u128 = (7u128 << 64) + 9;
    assert_eq!(Fr::from_u128(v).limbs(), [9, 7, 0, 0]);
    assert!(!Fr::from_u128(v).is_zero());
    assert!(Fr::from_u128(0).is_zero());
    assert!(Fr::from_u128(v).equals(&Fr::from_raw([9, 7, 0, 0])));
}

#[test]
fn from_raw_reduces_any_256_bit_number() {
    assert_eq!(
        Fq::from_raw([u64::MAX; 4]).limbs(),
        [
            0xd35d438dc58f0d9c,
            0x0a78eb28f5c70b3d,
            0x666ea36f7879462c,
            0x0e0a77c19a07df2f
        ]
    );
    assert_eq!(
        Fr::from_raw([u64::MAX; 4]).limbs(),
        [
            0xac96341c4ffffffa,
            0x36fc76959f60cd29,
            0x666ea36f7879462e,
            0x0e0a77c19a07df2f
        ]
    );
    let order = [
        0x43e1f593f0000001,
        0x2833e84879b97091,
        0xb85045b68181585d,
        0x30644e72e131a029,
    ];
    assert_eq!(Fr::from_raw(order), Fr::zero());
    assert_eq!(Fr::from_raw([7, 0, 0, 0]), Fr::from_u64(7));
}

#[test]
fn the_inverse_of_two_is_half_of_the_modulus_plus_one() {
    assert_eq!(
        Fq::from_u64(2).invert().unwrap().limbs(),
        [
            0x9e10460b6c3e7ea4,
            0xcbc0b548b438e546,
            0xdc2822db40c0ac2e,
            0x183227397098d014
        ]
    );
}

#[test]
fn fr_bytes_round_trip() {
    let a = Fr::from_raw([1, 2, 3, 4]);
    let bytes = a.to_bytes();
    assert_eq!(bytes[0], 1);
    assert_eq!(bytes[8], 2);
    assert_eq!(bytes[16], 3);
    assert_eq!(bytes[24], 4);
    assert_eq!(Fr::from_bytes(&bytes), Some(a));
    assert_eq!(Fr::from_bytes(&[0xff; 32]), None);
    assert!(Fq::from_u64(0).is_zero());
    assert!(Fq::from_u64(3).equals(&Fq::from_raw([3, 0, 0, 0])));
    assert!(!Fq::from_u64(3).equals(&Fq::from_u64(4)));
    assert_eq!(Fq::from_canonical_bytes(&bytes), Fq::from_raw([1, 2, 3, 4]));
}
