use algebraic_hash::boundary::{
    f64_anemoi_8_get_nb_rounds, f64_anemoi_8_get_round_keys, f64_anemoi_8_get_sbox_parameters,
    f64_anemoi_8_sbox_layer, f64_compress2, f64_xof,
};
use algebraic_hash::field::{Felt, MODULUS};
use algebraic_hash::linear::mds_matrix;
use algebraic_hash::permutation::{apply_permutation, apply_round, Instance, LinearLayer, NonLinearLayer, Schedule};
use algebraic_hash::sponge::{anemoi_xof_field, compress, jive, merge};

fn felts(v: &[u64]) -> Vec<Felt> {
    v.iter().map(|x| Felt::new(*x)).collect()
}

fn words(v: &[Felt]) -> Vec<u64> {
    v.iter().map(|x| x.as_u64()).collect()
}

fn round_constants(rows: u64, width: u64) -> Vec<Vec<Felt>> {
    (0..rows)
        .map(|r| (0..width).map(|c| Felt::new(1000003 * (width * r + c + 1))).collect())
        .collect()
}

fn wide_instance(schedule: Schedule) -> Instance {
    Instance {
        width: 12,
        rate: 8,
        digest_size: 4,
        num_rounds: 8,
        non_linear: NonLinearLayer::QuadraticMixing {
            alphas: (1..=10).map(Felt::new).collect(),
            betas: (2..=11).map(Felt::new).collect(),
        },
        linear: LinearLayer::Butterfly,
        schedule,
        round_constants: round_constants(7, 12),
    }
}

fn flystel_instance() -> Instance {
    Instance {
        width: 4,
        rate: 2,
        digest_size: 2,
        num_rounds: 3,
        non_linear: NonLinearLayer::Flystel {
            beta: Felt::new(7),
            delta: Felt::new(2635249152773512046),
        },
        linear: LinearLayer::Matrix { matrix: vec![1, 1, 0, 0, 0, 1, 0, 0, 0, 0, 1, 1, 0, 0, 0, 1] },
        schedule: Schedule::Uniform,
        round_constants: round_constants(3, 4),
    }
}

#[test]
fn permutation_of_zero_state() {
    let inst = wide_instance(Schedule::TruncatedFinal);
    let mut s = felts(&[0; 12]);
    apply_permutation(&inst, &mut s);
    assert_eq!(
        words(&s),
        vec![
            7958042777185739234, 8530445095808572614, 13020886436816297884, 5108254610970600977,
            17802515479646834505, 254868202429249781, 24331902870500467, 628506761432464757,
            17149573863812762753, 11032843229248085270, 17712835081198623324, 4117185421808156352,
        ]
    );
}

#[test]
fn permutation_of_nonzero_state() {
    let inst = wide_instance(Schedule::TruncatedFinal);
    let mut s = felts(&[0, 1, 2, 3, 4, 5, 6, 7, 8, 9, 10, 11]);
    apply_permutation(&inst, &mut s);
    assert_eq!(
        words(&s),
        vec![
            13829932439722122717, 11473659937039153710, 2569697965213842233, 6766822731214026453,
            17870358078334503813, 14260461487888077128, 187237710578992789, 17074173990912708733,
            17846280104006152930, 3222875100320849090, 11928196714017829897, 17522483290604457092,
        ]
    );
}

#[test]
fn uniform_schedule_adds_final_constants() {
    let inst = wide_instance(Schedule::Uniform);
    let mut s = felts(&[0, 1, 2, 3, 4, 5, 6, 7, 8, 9, 10, 11]);
    apply_permutation(&inst, &mut s);
    assert_eq!(
        words(&s),
        vec![
            13829932439723122720, 11473659937041153716, 2569697965216842242, 6766822731218026465,
            17870358078339503828, 14260461487894077146, 187237710585992810, 17074173990920708757,
            17846280104015152957, 3222875100330849120, 11928196714028829930, 17522483290616457128,
        ]
    );
}

#[test]
fn permutation_is_deterministic() {
    let inst = wide_instance(Schedule::TruncatedFinal);
    let mut a = felts(&[3, 1, 4, 1, 5, 9, 2, 6, 5, 3, 5, 8]);
    let mut b = a.clone();
    apply_permutation(&inst, &mut a);
    apply_permutation(&inst, &mut b);
    assert_eq!(a, b);
}

#[test]
fn round_constants_are_indexed_cyclically() {
    let inst = wide_instance(Schedule::TruncatedFinal);
    let mut a = felts(&[3, 1, 4, 1, 5, 9, 2, 6, 5, 3, 5, 8]);
    let mut b = a.clone();
    apply_round(&inst, &mut a, 1);
    apply_round(&inst, &mut b, 8);
    assert_eq!(a, b);
}

#[test]
fn matrix_instance_matches_butterfly_instance() {
    let mut inst = wide_instance(Schedule::TruncatedFinal);
    let mut a = felts(&[3, 1, 4, 1, 5, 9, 2, 6, 5, 3, 5, 8]);
    let mut b = a.clone();
    apply_permutation(&inst, &mut a);
    inst.linear = LinearLayer::Matrix { matrix: mds_matrix() };
    apply_permutation(&inst, &mut b);
    assert_eq!(a, b);
}

#[test]
fn xof_of_empty_input_is_zero_digest() {
    let inst = wide_instance(Schedule::TruncatedFinal);
    let out = anemoi_xof_field(&inst, &[], 4);
    assert_eq!(words(&out), vec![0, 0, 0, 0]);
}

#[test]
fn xof_full_block_and_longer_output() {
    let inst = wide_instance(Schedule::TruncatedFinal);
    let input = felts(&[1, 2, 3, 4, 5, 6, 7, 8]);
    let out = anemoi_xof_field(&inst, &input, 10);
    assert_eq!(
        words(&out),
        vec![
            6336792899631402231, 13511389091455854771, 13700422599278771325, 17218972633282076749,
            8234410929234572024, 5425416639176413850, 15510454806955722469, 13942808485026290466,
            4692741265490886805, 481162818187503707,
        ]
    );
    // the shorter output is a prefix of the longer one
    assert_eq!(anemoi_xof_field(&inst, &input, 8), out[0..8].to_vec());
    assert_eq!(anemoi_xof_field(&inst, &input, 0), vec![]);
}

#[test]
fn xof_rate_plus_one_takes_other_padding_path() {
    let inst = wide_instance(Schedule::TruncatedFinal);
    let a = anemoi_xof_field(&inst, &felts(&[1, 2, 3, 4, 5, 6, 7, 8]), 4);
    let b = anemoi_xof_field(&inst, &felts(&[1, 2, 3, 4, 5, 6, 7, 8, 9]), 4);
    assert_ne!(a, b);
    assert_eq!(
        words(&b),
        vec![15084386235858791277, 4900294948026819596, 13061871027044111544, 2199560178650225795]
    );
}

#[test]
fn xof_of_single_element() {
    let inst = wide_instance(Schedule::TruncatedFinal);
    let out = anemoi_xof_field(&inst, &felts(&[5]), 3);
    assert_eq!(words(&out), vec![13001116467850905719, 5146675212714513486, 4167630563671004239]);
}

#[test]
fn compress_values_and_sensitivity() {
    let inst = wide_instance(Schedule::TruncatedFinal);
    let a = compress(&inst, &felts(&[1, 2, 3, 4, 5, 6, 7, 8]));
    assert_eq!(
        words(&a),
        vec![6336792899631402231, 13511389091455854771, 13700422599278771325, 17218972633282076749]
    );
    assert_eq!(compress(&inst, &felts(&[1, 2, 3, 4, 5, 6, 7, 8])), a);
    // 8 and 9 differ in one bit
    let b = compress(&inst, &felts(&[1, 2, 3, 4, 5, 6, 7, 9]));
    assert_eq!(
        words(&b),
        vec![6430502437152980933, 5364979017224546934, 16891403430235562189, 1605135689622943225]
    );
    assert_ne!(a, b);
}

#[test]
fn merge_is_compression_of_both_digests() {
    let inst = wide_instance(Schedule::TruncatedFinal);
    let left = felts(&[1, 2, 3, 4]);
    let right = felts(&[5, 6, 7, 8]);
    assert_eq!(merge(&inst, &left, &right), compress(&inst, &felts(&[1, 2, 3, 4, 5, 6, 7, 8])));
}

#[test]
fn word_entry_points() {
    let inst = wide_instance(Schedule::TruncatedFinal);
    let out = f64_compress2(&inst, &[1, 2, 3, 4, 5, 6, 7, MODULUS + 8]);
    assert_eq!(
        out,
        vec![6336792899631402231, 13511389091455854771, 13700422599278771325, 17218972633282076749]
    );
    let x = f64_xof(&inst, &[MODULUS + 5], 3);
    assert_eq!(x, vec![13001116467850905719, 5146675212714513486, 4167630563671004239]);
    assert_eq!(f64_anemoi_8_get_nb_rounds(&inst), 8);
    assert_eq!(f64_anemoi_8_get_sbox_parameters(&inst), None);
    let wide_keys = f64_anemoi_8_get_round_keys(&inst);
    assert_eq!(wide_keys.len(), 96);
    assert_eq!(wide_keys[84..96], wide_keys[0..12]);
    assert_eq!(wide_keys[83], 84 * 1000003);
    let keys = f64_anemoi_8_get_round_keys(&flystel_instance());
    assert_eq!(keys.len(), 12);
    assert_eq!(keys[0], 1000003);
    assert_eq!(keys[11], 12 * 1000003);
}

#[test]
fn flystel_word_entry_points() {
    let inst = flystel_instance();
    assert_eq!(f64_anemoi_8_get_sbox_parameters(&inst), Some((7, 7, 2635249152773512046)));
    assert_eq!(
        f64_anemoi_8_sbox_layer(&inst, &[0, 1, MODULUS, 0]),
        vec![2635249152773512046, 2635249152773512054, 0, 18446744069414584320]
    );
    let mut s = felts(&[1, 2, 3, 4]);
    let mut t = s.clone();
    apply_permutation(&inst, &mut s);
    apply_permutation(&inst, &mut t);
    assert_eq!(s, t);
    assert_ne!(s, felts(&[1, 2, 3, 4]));
}

#[test]
fn jive_sums_inputs_and_permuted_state() {
    let inst = wide_instance(Schedule::TruncatedFinal);
    let input = felts(&[0, 1, 2, 3, 4, 5, 6, 7, 8, 9, 10, 11]);
    assert_eq!(jive(&inst, &input).as_u64(), 5424971063950626404);
    let other = felts(&[0, 1, 2, 3, 4, 5, 6, 7, 8, 9, 10, 12]);
    assert_ne!(jive(&inst, &other), jive(&inst, &input));
}

#[test]
fn instance_validity() {
    assert!(wide_instance(Schedule::TruncatedFinal).is_valid());
    assert!(flystel_instance().is_valid());
    let mut a = wide_instance(Schedule::Uniform);
    a.rate = 12;
    assert!(!a.is_valid());
    let mut b = flystel_instance();
    b.round_constants[1][2] = Felt { value: MODULUS };
    assert!(!b.is_valid());
    let mut c = flystel_instance();
    c.linear = LinearLayer::Matrix { matrix: vec![1; 15] };
    assert!(!c.is_valid());
    let mut d = wide_instance(Schedule::Uniform);
    d.width = 8;
    d.rate = 4;
    d.round_constants = round_constants(7, 8);
    d.non_linear = NonLinearLayer::QuadraticMixing {
        alphas: (1..=6).map(Felt::new).collect(),
        betas: (2..=7).map(Felt::new).collect(),
    };
    assert!(!d.is_valid());
    d.linear = LinearLayer::Matrix { matrix: vec![0; 64] };
    assert!(d.is_valid());
}

#[test]
fn permutation_has_no_collisions_on_a_sample() {
    let inst = wide_instance(Schedule::TruncatedFinal);
    let mut seen = std::collections::HashSet::new();
    for i in 0..200u64 {
        let mut s = felts(&[i, 0, 0, 0, 0, 0, 0, 0, 0, 0, 0, i % 3]);
        apply_permutation(&inst, &mut s);
        seen.insert(words(&s));
    }
    assert_eq!(seen.len(), 200);
}
