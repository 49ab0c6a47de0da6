use algebraic_hash::boundary::{
    f64_field_add, f64_field_div, f64_field_inv, f64_field_is_equal, f64_field_mul, f64_field_neg,
    f64_field_reduce, f64_field_sub,
};
use algebraic_hash::field::{Felt, FieldError, MODULUS};

fn sample(seed: u64) -> Felt {
    let mut x = seed.wrapping_mul(0x9E37_79B9_7F4A_7C15).wrapping_add(0x2545_F491_4F6C_DD1D);
    x ^= x >> 29;
    x = x.wrapping_mul(0xBF58_476D_1CE4_E5B9);
    x ^= x >> 32;
    Felt::new(x)
}

#[test]
fn add_then_sub_gives_back() {
    for i in 0..100u64 {
        let a = sample(i);
        let b = sample(i + 1000);
        assert_eq!(a.add(b).sub(b), a);
    }
}

#[test]
fn mul_then_inverse_gives_back() {
    for i in 0..100u64 {
        let a = sample(i);
        let b = sample(i + 5000);
        if !b.is_zero() {
            assert_eq!(a.mul(b).mul(b.inv().unwrap()), a);
        }
    }
}

#[test]
fn inverse_of_zero_fails() {
    assert_eq!(Felt::zero().inv(), Err(FieldError::DivisionByZero));
    assert_eq!(Felt::new(MODULUS).inv(), Err(FieldError::DivisionByZero));
}

#[test]
fn inverse_of_two() {
    assert_eq!(Felt::new(2).inv().unwrap().as_u64(), 9223372034707292161);
}

#[test]
fn reduce_is_idempotent() {
    assert_eq!(Felt::new(MODULUS + 5).as_u64(), 5);
    assert_eq!(Felt::new(u64::MAX).as_u64(), 0xFFFF_FFFE);
    for i in 0..100u64 {
        let x = sample(i).as_u64().wrapping_add(MODULUS);
        assert_eq!(Felt::new(Felt::new(x).as_u64()), Felt::new(x));
    }
}

#[test]
fn exact_arithmetic_values() {
    let m1 = Felt::new(MODULUS - 1);
    assert_eq!(m1.mul(m1).as_u64(), 1);
    assert_eq!(m1.add(Felt::new(3)).as_u64(), 2);
    assert_eq!(Felt::new(1).sub(Felt::new(3)).as_u64(), MODULUS - 2);
    assert_eq!(Felt::one().neg().as_u64(), MODULUS - 1);
    assert_eq!(Felt::zero().neg().as_u64(), 0);
    assert_eq!(Felt::new(3).exp(5).as_u64(), 243);
    assert_eq!(Felt::new(1u64 << 32).square().as_u64(), 0xFFFF_FFFF);
    assert_eq!(Felt::reduce_wide(1u128 << 64).as_u64(), 0xFFFF_FFFF);
}

#[test]
fn bytes_round_trip() {
    for i in 0..100u64 {
        let a = sample(i);
        let b = a.to_bytes_le();
        assert_eq!(b.len(), 8);
        assert_eq!(Felt::from_bytes_le(&b), a);
    }
}

#[test]
fn bytes_layout_is_little_endian() {
    assert_eq!(Felt::new(0x0102).to_bytes_le(), vec![2, 1, 0, 0, 0, 0, 0, 0]);
    assert_eq!(Felt::from_bytes_le(&[2, 1]).as_u64(), 0x0102);
    assert_eq!(Felt::from_bytes_le(&[]).as_u64(), 0);
}

#[test]
fn bytes_input_is_reduced() {
    // p + 1 as eight bytes
    let b = [2u8, 0, 0, 0, 255, 255, 255, 255];
    assert_eq!(Felt::from_bytes_le(&b).as_u64(), 1);
    // 2^64 needs nine bytes and is 2^32 - 1 modulo p
    let c = [0u8, 0, 0, 0, 0, 0, 0, 0, 1];
    assert_eq!(Felt::from_bytes_le(&c).as_u64(), 0xFFFF_FFFF);
}

#[test]
fn buffer_field_operations() {
    let p_plus_one = [2u8, 0, 0, 0, 255, 255, 255, 255];
    let one = 1u64.to_le_bytes();
    let two = 2u64.to_le_bytes();
    let p_minus_one = (MODULUS - 1).to_le_bytes();
    assert_eq!(f64_field_reduce(&p_plus_one), one.to_vec());
    assert_eq!(f64_field_add(&p_minus_one, &two), one.to_vec());
    assert_eq!(f64_field_sub(&one, &two), p_minus_one.to_vec());
    assert_eq!(f64_field_neg(&one), p_minus_one.to_vec());
    assert_eq!(f64_field_mul(&p_minus_one, &p_minus_one), one.to_vec());
    assert_eq!(f64_field_inv(&two), Ok(9223372034707292161u64.to_le_bytes().to_vec()));
    assert_eq!(f64_field_inv(&[0u8; 8]), Err(FieldError::DivisionByZero));
    assert_eq!(f64_field_div(&one, &two), Ok(9223372034707292161u64.to_le_bytes().to_vec()));
    assert_eq!(f64_field_div(&one, &MODULUS.to_le_bytes()), Err(FieldError::DivisionByZero));
    assert!(f64_field_is_equal(&p_plus_one, &one));
    assert!(!f64_field_is_equal(&one, &two));
}
