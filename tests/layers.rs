use algebraic_hash::field::Felt;
use algebraic_hash::linear::{apply_mds, mat_vec_mult, mds_matrix, STATE_WIDTH};
use algebraic_hash::nonlinear::{apply_flystel, apply_non_linear, linear_function, pow_d, pow_inv_d};

fn sample(seed: u64) -> Felt {
    let mut x = seed.wrapping_mul(0x9E37_79B9_7F4A_7C15).wrapping_add(0x2545_F491_4F6C_DD1D);
    x ^= x >> 29;
    x = x.wrapping_mul(0xBF58_476D_1CE4_E5B9);
    x ^= x >> 32;
    Felt::new(x)
}

fn felts(v: &[u64]) -> Vec<Felt> {
    v.iter().map(|x| Felt::new(*x)).collect()
}

#[test]
fn test_mds() {
    let matrix = mds_matrix();
    for round in 0..100u64 {
        let mut state: Vec<Felt> = (0..STATE_WIDTH as u64).map(|i| sample(round * 100 + i)).collect();
        let mut state_copy = state.clone();
        apply_mds(&mut state);
        mat_vec_mult(&matrix, &mut state_copy);
        assert_eq!(state, state_copy);
    }
}

#[test]
fn test_d() {
    for i in 0..100u64 {
        let mut x = sample(i);
        let x_copy = x;
        pow_d(&mut x);
        pow_inv_d(&mut x);
        assert_eq!(x, x_copy);
        pow_inv_d(&mut x);
        pow_d(&mut x);
        assert_eq!(x, x_copy);
    }
}

#[test]
fn mds_of_unit_vector_is_first_column() {
    let mut state = felts(&[1, 0, 0, 0, 0, 0, 0, 0, 0, 0, 0, 0]);
    apply_mds(&mut state);
    assert_eq!(state, felts(&[10, 8, 2, 2, 5, 4, 1, 1, 5, 4, 1, 1]));
}

#[test]
fn mds_matrix_rows() {
    let m = mds_matrix();
    assert_eq!(m.len(), 144);
    assert_eq!(&m[0..12], &[10, 14, 2, 6, 5, 7, 1, 3, 5, 7, 1, 3]);
    assert_eq!(&m[132..144], &[1, 1, 4, 6, 1, 1, 4, 6, 2, 2, 8, 12]);
}

#[test]
fn linear_function_value() {
    let r = linear_function(5, Felt::new(3), Felt::new(10), Felt::new(100));
    assert_eq!(r.as_u64(), 4 * 3 + 10 + 100);
}

#[test]
fn non_linear_chain_values() {
    let mut state = felts(&[1, 1, 1, 1, 0, 0, 0, 0, 0, 0, 0, 0]);
    let alpha = felts(&[1; 10]);
    let beta = felts(&[2; 10]);
    apply_non_linear(&mut state, &alpha, &beta);
    assert_eq!(state, felts(&[1, 1, 14, 308, 0, 0, 0, 0, 0, 0, 0, 0]));
}

#[test]
fn flystel_values() {
    let beta = Felt::new(7);
    let delta = Felt::new(2635249152773512046);
    let mut state = felts(&[0, 1, 0, 0]);
    apply_flystel(&mut state, beta, delta);
    assert_eq!(
        state,
        felts(&[2635249152773512046, 2635249152773512054, 0, 18446744069414584320])
    );
}
