use algebraic_hash::bn254::{
    bn254_anemoi_2_get_sbox_parameters, bn254_anemoi_2_sbox_layer, bn254_field_add, bn254_field_div,
    bn254_field_inv, bn254_field_is_equal, bn254_field_mul, bn254_field_neg, bn254_field_reduce,
    bn254_field_sub,
};
use algebraic_hash::field::FieldError;

const R: [u8; 32] = [
    1, 0, 0, 240, 147, 245, 225, 67, 145, 112, 185, 121, 72, 232, 51, 40, 93, 88, 129, 129, 182,
    69, 80, 184, 41, 160, 49, 225, 114, 78, 100, 48,
];
const R_MINUS_ONE: [u8; 32] = [
    0, 0, 0, 240, 147, 245, 225, 67, 145, 112, 185, 121, 72, 232, 51, 40, 93, 88, 129, 129, 182,
    69, 80, 184, 41, 160, 49, 225, 114, 78, 100, 48,
];
const R_PLUS_FIVE: [u8; 32] = [
    6, 0, 0, 240, 147, 245, 225, 67, 145, 112, 185, 121, 72, 232, 51, 40, 93, 88, 129, 129, 182,
    69, 80, 184, 41, 160, 49, 225, 114, 78, 100, 48,
];
const HALF: [u8; 32] = [
    1, 0, 0, 248, 201, 250, 240, 161, 72, 184, 220, 60, 36, 244, 25, 148, 46, 172, 192, 64, 219,
    34, 40, 220, 20, 208, 152, 112, 57, 39, 50, 24,
];
const DELTA: [u8; 32] = [
    103, 102, 102, 198, 212, 251, 243, 231, 6, 45, 74, 202, 233, 92, 174, 169, 139, 86, 205, 51,
    124, 181, 185, 73, 170, 217, 19, 90, 148, 82, 91, 19,
];

fn small(v: u64) -> Vec<u8> {
    let mut b = v.to_le_bytes().to_vec();
    b.resize(32, 0);
    b
}

#[test]
fn bn254_reduce_values() {
    assert_eq!(bn254_field_reduce(&R), small(0));
    assert_eq!(bn254_field_reduce(&R_PLUS_FIVE), small(5));
    assert_eq!(bn254_field_reduce(&small(7)), small(7));
    assert_eq!(
        bn254_field_reduce(&[255u8; 32]),
        vec![
            250, 255, 255, 79, 28, 52, 150, 172, 41, 205, 96, 159, 149, 118, 252, 54, 46, 70, 121,
            120, 111, 163, 110, 102, 47, 223, 7, 154, 193, 119, 10, 14
        ]
    );
    let once = bn254_field_reduce(&[255u8; 32]);
    assert_eq!(bn254_field_reduce(&once), once);
}

#[test]
fn bn254_add_sub_neg_mul_values() {
    assert_eq!(bn254_field_add(&R_MINUS_ONE, &small(2)), small(1));
    assert_eq!(bn254_field_sub(&small(1), &small(2)), R_MINUS_ONE.to_vec());
    assert_eq!(bn254_field_neg(&small(1)), R_MINUS_ONE.to_vec());
    assert_eq!(bn254_field_neg(&small(0)), small(0));
    assert_eq!(bn254_field_mul(&R_MINUS_ONE, &R_MINUS_ONE), small(1));
    assert_eq!(bn254_field_mul(&small(6), &small(7)), small(42));
    let s = bn254_field_add(&HALF, &small(1234));
    assert_eq!(bn254_field_sub(&s, &small(1234)), HALF.to_vec());
}

#[test]
fn bn254_inverse_values() {
    assert_eq!(bn254_field_inv(&small(2)), Ok(HALF.to_vec()));
    assert_eq!(bn254_field_inv(&small(0)), Err(FieldError::DivisionByZero));
    assert_eq!(bn254_field_inv(&R), Err(FieldError::DivisionByZero));
    assert_eq!(bn254_field_div(&small(1), &small(2)), Ok(HALF.to_vec()));
    assert_eq!(bn254_field_div(&small(1), &R), Err(FieldError::DivisionByZero));
    let a = bn254_field_reduce(&[255u8; 32]);
    let p = bn254_field_mul(&a, &HALF);
    assert_eq!(bn254_field_div(&p, &HALF), Ok(a));
}

#[test]
fn bn254_equality() {
    assert!(bn254_field_is_equal(&R_PLUS_FIVE, &small(5)));
    assert!(bn254_field_is_equal(&R, &small(0)));
    assert!(!bn254_field_is_equal(&small(5), &small(6)));
}

#[test]
fn bn254_sbox_values() {
    let mut zero = vec![0u8; 64];
    let mut expected = DELTA.to_vec();
    expected.extend_from_slice(&[0u8; 32]);
    assert_eq!(bn254_anemoi_2_sbox_layer(&zero), expected);
    zero[0] = 1;
    zero[32] = 2;
    assert_eq!(
        bn254_anemoi_2_sbox_layer(&zero),
        vec![
            111, 207, 224, 85, 20, 111, 216, 44, 43, 186, 76, 91, 176, 46, 186, 105, 140, 162, 111,
            195, 17, 68, 100, 62, 222, 72, 17, 130, 40, 63, 231, 26, 50, 210, 250, 81, 142, 23, 79,
            15, 112, 130, 74, 231, 159, 35, 241, 69, 165, 109, 214, 60, 147, 221, 115, 112, 239,
            246, 179, 56, 83, 149, 7, 33
        ]
    );
    let mut reduced_input = R.to_vec();
    reduced_input[0] = 4;
    reduced_input.extend_from_slice(&small(7));
    assert_eq!(
        bn254_anemoi_2_sbox_layer(&reduced_input),
        vec![
            240, 100, 41, 160, 12, 167, 138, 139, 139, 35, 184, 121, 105, 57, 64, 224, 175, 87, 41,
            155, 38, 4, 162, 131, 199, 95, 198, 198, 115, 12, 52, 14, 3, 218, 58, 234, 237, 125,
            72, 49, 178, 111, 105, 208, 173, 190, 129, 31, 75, 73, 50, 192, 91, 40, 251, 40, 85,
            231, 146, 143, 211, 139, 95, 8
        ]
    );
}

#[test]
fn bn254_sbox_parameters() {
    let (alpha, beta, delta) = bn254_anemoi_2_get_sbox_parameters();
    assert_eq!(alpha, 5);
    assert_eq!(beta, small(5));
    assert_eq!(delta, DELTA.to_vec());
    assert_eq!(bn254_field_mul(&beta, &delta), small(1));
}
