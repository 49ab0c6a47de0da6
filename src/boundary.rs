//! Entry points on raw 64-bit words for an external consumer: each input
//! word is reduced modulo `p`, each output word is canonical.
use vstd::prelude::*;
use vstd::slice::slice_subrange;
use crate::field::{Felt, FieldError, FELT_BYTES, felt_of, le_value, add_spec, sub_spec, neg_spec, mul_spec, pow_spec, modulus};
use crate::nonlinear::{all_wf, D};
use crate::permutation::{Instance, NonLinearLayer, constants_row, non_linear_layer_spec, apply_non_linear_layer};
use crate::sponge::{compress_spec, xof_spec, anemoi_xof_field, merge};

verus! {

/// The field elements that raw words denote.
pub open spec fn felts_of_words(w: Seq<u64>) -> Seq<Felt> {
    Seq::new(w.len(), |i: int| felt_of(w[i] as int))
}

/// The canonical words of field elements.
pub open spec fn words_of_felts(s: Seq<Felt>) -> Seq<u64> {
    Seq::new(s.len(), |i: int| s[i].value)
}

/// The constants of rounds `0 .. n`, concatenated round after round.
pub open spec fn round_keys_spec(inst: &Instance, n: nat) -> Seq<u64>
    decreases n,
{
    if n == 0 {
        Seq::empty()
    } else {
        round_keys_spec(inst, (n - 1) as nat) + words_of_felts(constants_row(inst, (n - 1) as nat))
    }
}

fn to_felts(words: &[u64]) -> (r: Vec<Felt>)
    ensures
        r@ == felts_of_words(words@),
        all_wf(r@),
{
    let mut r: Vec<Felt> = Vec::new();
    let mut i: usize = 0;
    while i < words.len()
        invariant
            i <= words@.len(),
            r@ =~= felts_of_words(words@).subrange(0, i as int),
            all_wf(r@),
        decreases words@.len() - i,
    {
        r.push(Felt::new(words[i]));
        i = i + 1;
    }
    assert(r@ =~= felts_of_words(words@));
    r
}

fn to_words(s: &Vec<Felt>) -> (r: Vec<u64>)
    ensures
        r@ == words_of_felts(s@),
{
    let mut r: Vec<u64> = Vec::new();
    let mut i: usize = 0;
    while i < s.len()
        invariant
            i <= s@.len(),
            r@ =~= words_of_felts(s@).subrange(0, i as int),
        decreases s@.len() - i,
    {
        r.push(s[i].as_u64());
        i = i + 1;
    }
    assert(r@ =~= words_of_felts(s@));
    r
}

/// Number of rounds of the instance's permutation.
pub fn f64_anemoi_8_get_nb_rounds(inst: &Instance) -> (r: usize)
    ensures
        r == inst.num_rounds,
{
    inst.num_rounds
}

/// S-box parameters of a flystel instance: the power-map exponent and the
/// canonical words of `beta` and `delta`; `None` for other S-box designs.
pub fn f64_anemoi_8_get_sbox_parameters(inst: &Instance) -> (r: Option<(u8, u64, u64)>)
    ensures
        match inst.non_linear {
            NonLinearLayer::Flystel { beta, delta } => r == Some((D as u8, beta.value, delta.value)),
            NonLinearLayer::QuadraticMixing { .. } => r is None,
        },
{
    match &inst.non_linear {
        NonLinearLayer::Flystel { beta, delta } => Some((D as u8, beta.as_u64(), delta.as_u64())),
        NonLinearLayer::QuadraticMixing { .. } => None,
    }
}

/// The constants of each of the `num_rounds` rounds as canonical words,
/// round after round; each row lists the constants of the first half of the
/// state, then those of the second half.
pub fn f64_anemoi_8_get_round_keys(inst: &Instance) -> (r: Vec<u64>)
    requires
        inst.wf(),
    ensures
        r@ == round_keys_spec(inst, inst.num_rounds as nat),
{
    let mut r: Vec<u64> = Vec::new();
    let mut i: usize = 0;
    while i < inst.num_rounds
        invariant
            inst.wf(),
            i <= inst.num_rounds,
            r@ == round_keys_spec(inst, i as nat),
        decreases inst.num_rounds - i,
    {
        let row = to_words(&inst.round_constants[i % inst.round_constants.len()]);
        let ghost before = r@;
        let mut j: usize = 0;
        while j < row.len()
            invariant
                j <= row@.len(),
                r@ =~= before + row@.subrange(0, j as int),
            decreases row@.len() - j,
        {
            r.push(row[j]);
            j = j + 1;
        }
        assert(r@ =~= before + row@);
        i = i + 1;
    }
    r
}

/// Applies the instance's S-box layer to a state given as raw words.
pub fn f64_anemoi_8_sbox_layer(inst: &Instance, input: &[u64]) -> (r: Vec<u64>)
    requires
        inst.wf(),
        input@.len() == inst.width,
    ensures
        r@ == words_of_felts(non_linear_layer_spec(inst, felts_of_words(input@))),
{
    let mut state = to_felts(input);
    apply_non_linear_layer(inst, &mut state);
    to_words(&state)
}

/// Merges two digests given as `2 * digest_size` raw words.
pub fn f64_compress2(inst: &Instance, input: &[u64]) -> (r: Vec<u64>)
    requires
        inst.wf(),
        input@.len() == 2 * inst.digest_size,
        2 * inst.digest_size <= inst.rate,
    ensures
        r@ == words_of_felts(compress_spec(inst, felts_of_words(input@))),
{
    let felts = to_felts(input);
    let d = inst.digest_size;
    let left = slice_subrange(felts.as_slice(), 0, d);
    let right = slice_subrange(felts.as_slice(), d, 2 * d);
    assert(left@ + right@ =~= felts@);
    let out = merge(inst, left, right);
    to_words(&out)
}

/// The sponge XOF on raw words: `output_size` canonical words.
pub fn f64_xof(inst: &Instance, input: &[u64], output_size: usize) -> (r: Vec<u64>)
    requires
        inst.wf(),
    ensures
        r@ == words_of_felts(xof_spec(inst, felts_of_words(input@), output_size as nat)),
{
    let elems = to_felts(input);
    let out = anemoi_xof_field(inst, elems.as_slice(), output_size);
    to_words(&out)
}

/// The element that a little-endian buffer denotes, reduced modulo `p`.
pub open spec fn felt_of_bytes(b: Seq<u8>) -> Felt {
    felt_of(le_value(b) as int)
}

/// `r` is the fixed-width little-endian buffer of the canonical element `f`.
pub open spec fn is_buffer_of(r: Seq<u8>, f: Felt) -> bool {
    r.len() == FELT_BYTES && le_value(r) == f.value
}

/// Reduces a buffer to the canonical buffer of the same element.
pub fn f64_field_reduce(a: &[u8]) -> (r: Vec<u8>)
    requires
        a@.len() == FELT_BYTES,
    ensures
        is_buffer_of(r@, felt_of_bytes(a@)),
{
    Felt::from_bytes_le(a).to_bytes_le()
}

/// Field addition on buffers.
pub fn f64_field_add(a: &[u8], b: &[u8]) -> (r: Vec<u8>)
    requires
        a@.len() == FELT_BYTES,
        b@.len() == FELT_BYTES,
    ensures
        is_buffer_of(r@, add_spec(felt_of_bytes(a@), felt_of_bytes(b@))),
{
    Felt::from_bytes_le(a).add(Felt::from_bytes_le(b)).to_bytes_le()
}

/// Field subtraction on buffers.
pub fn f64_field_sub(a: &[u8], b: &[u8]) -> (r: Vec<u8>)
    requires
        a@.len() == FELT_BYTES,
        b@.len() == FELT_BYTES,
    ensures
        is_buffer_of(r@, sub_spec(felt_of_bytes(a@), felt_of_bytes(b@))),
{
    Felt::from_bytes_le(a).sub(Felt::from_bytes_le(b)).to_bytes_le()
}

/// Field negation on a buffer.
pub fn f64_field_neg(a: &[u8]) -> (r: Vec<u8>)
    requires
        a@.len() == FELT_BYTES,
    ensures
        is_buffer_of(r@, neg_spec(felt_of_bytes(a@))),
{
    Felt::from_bytes_le(a).neg().to_bytes_le()
}

/// Field multiplication on buffers.
pub fn f64_field_mul(a: &[u8], b: &[u8]) -> (r: Vec<u8>)
    requires
        a@.len() == FELT_BYTES,
        b@.len() == FELT_BYTES,
    ensures
        is_buffer_of(r@, mul_spec(felt_of_bytes(a@), felt_of_bytes(b@))),
{
    Felt::from_bytes_le(a).mul(Felt::from_bytes_le(b)).to_bytes_le()
}

/// Field inversion on a buffer; fails when the buffer denotes zero.
pub fn f64_field_inv(a: &[u8]) -> (r: Result<Vec<u8>, FieldError>)
    requires
        a@.len() == FELT_BYTES,
    ensures
        felt_of_bytes(a@).value == 0 <==> r is Err,
        r is Err ==> r == Err::<Vec<u8>, FieldError>(FieldError::DivisionByZero),
        r matches Ok(v) ==> is_buffer_of(v@, pow_spec(felt_of_bytes(a@), (modulus() - 2) as nat)),
{
    match Felt::from_bytes_le(a).inv() {
        Ok(x) => Ok(x.to_bytes_le()),
        Err(e) => Err(e),
    }
}

/// Field division `a / b` on buffers; fails when `b` denotes zero.
pub fn f64_field_div(a: &[u8], b: &[u8]) -> (r: Result<Vec<u8>, FieldError>)
    requires
        a@.len() == FELT_BYTES,
        b@.len() == FELT_BYTES,
    ensures
        felt_of_bytes(b@).value == 0 <==> r is Err,
        r is Err ==> r == Err::<Vec<u8>, FieldError>(FieldError::DivisionByZero),
        r matches Ok(v) ==> is_buffer_of(
            v@,
            mul_spec(
                felt_of_bytes(a@),
                pow_spec(felt_of_bytes(b@), (modulus() - 2) as nat),
            ),
        ),
{
    let x = Felt::from_bytes_le(a);
    match Felt::from_bytes_le(b).inv() {
        Ok(y) => Ok(x.mul(y).to_bytes_le()),
        Err(e) => Err(e),
    }
}

/// Whether two buffers denote the same field element.
pub fn f64_field_is_equal(a: &[u8], b: &[u8]) -> (r: bool)
    requires
        a@.len() == FELT_BYTES,
        b@.len() == FELT_BYTES,
    ensures
        r == (felt_of_bytes(a@) == felt_of_bytes(b@)),
{
    let x = Felt::from_bytes_le(a);
    let y = Felt::from_bytes_le(b);
    x.as_u64() == y.as_u64()
}

} // verus!
