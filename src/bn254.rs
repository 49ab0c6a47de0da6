//! Arithmetic modulo the 254-bit BN254 group order on fixed-width 32-byte
//! little-endian buffers, and the flystel S-box of the two-register
//! instance over that field.
use vstd::prelude::*;
use vstd::arithmetic::div_mod::{lemma_fundamental_div_mod_converse, lemma_mod_bound, lemma_small_mod};
use vstd::arithmetic::power::{pow, lemma_pow_increases};
use num_bigint::BigUint;
use crate::field::{le_value, FieldError};

verus! {

/// Width in bytes of a serialized element.
pub const BN254_BYTES: usize = 32;

/// The BN254 group order `r`, a 254-bit prime.
pub open spec fn bn254_modulus() -> nat {
    limbs_value(0x43e1f593f0000001, 0x2833e84879b97091, 0xb85045b68181585d, 0x30644e72e131a029)
}

/// The number with the given 64-bit limbs, least significant first.
pub open spec fn limbs_value(l0: nat, l1: nat, l2: nat, l3: nat) -> nat {
    l0 + 0x1_0000_0000_0000_0000 * (l1 + 0x1_0000_0000_0000_0000 * (l2 + 0x1_0000_0000_0000_0000 * l3))
}

/// A byte string with no superfluous high zero byte: `[0]` for zero.
pub open spec fn minimal_bytes(s: Seq<u8>) -> bool {
    s.len() >= 1 && (s.len() == 1 || s.last() != 0)
}

/// The value of a little-endian byte string, as an integer.
pub open spec fn bytes_value(s: Seq<u8>) -> int {
    le_value(s) as int
}

/// The modulus, as an integer.
pub open spec fn bn254_p() -> int {
    bn254_modulus() as int
}

/// `r` is the 32-byte buffer of the value `v`.
pub open spec fn is_bn254_buffer(r: Seq<u8>, v: int) -> bool {
    r.len() == BN254_BYTES && le_value(r) == v
}

/// Relies on num_bigint: `BigUint::from_bytes_le`, `BigUint + BigUint`, and
/// `BigUint::to_bytes_le`, which gives the minimal little-endian bytes.
#[verifier::external_body]
fn big_add(a: &[u8], b: &[u8]) -> (r: Vec<u8>)
    ensures
        le_value(r@) == le_value(a@) + le_value(b@),
        minimal_bytes(r@),
{
    (BigUint::from_bytes_le(a) + BigUint::from_bytes_le(b)).to_bytes_le()
}

/// Relies on num_bigint: `BigUint - BigUint`, which panics below zero, with
/// the byte conversions of `big_add`.
#[verifier::external_body]
fn big_sub(a: &[u8], b: &[u8]) -> (r: Vec<u8>)
    requires
        le_value(b@) <= le_value(a@),
    ensures
        le_value(r@) == le_value(a@) - le_value(b@),
        minimal_bytes(r@),
{
    (BigUint::from_bytes_le(a) - BigUint::from_bytes_le(b)).to_bytes_le()
}

/// Relies on num_bigint: `BigUint * BigUint`, with the byte conversions of
/// `big_add`.
#[verifier::external_body]
fn big_mul(a: &[u8], b: &[u8]) -> (r: Vec<u8>)
    ensures
        le_value(r@) == le_value(a@) * le_value(b@),
        minimal_bytes(r@),
{
    (BigUint::from_bytes_le(a) * BigUint::from_bytes_le(b)).to_bytes_le()
}

/// Relies on num_bigint: `BigUint % BigUint`, which panics on a zero
/// divisor, with the byte conversions of `big_add`.
#[verifier::external_body]
fn big_rem(a: &[u8], m: &[u8]) -> (r: Vec<u8>)
    requires
        le_value(m@) > 0,
    ensures
        le_value(r@) == le_value(a@) % le_value(m@),
        minimal_bytes(r@),
{
    (BigUint::from_bytes_le(a) % BigUint::from_bytes_le(m)).to_bytes_le()
}

/// Relies on num_bigint: `BigUint::modpow`, which panics on a zero modulus,
/// with the byte conversions of `big_add`.
#[verifier::external_body]
fn big_modpow(b: &[u8], e: &[u8], m: &[u8]) -> (r: Vec<u8>)
    requires
        le_value(m@) > 0,
    ensures
        le_value(r@) == pow(le_value(b@) as int, le_value(e@)) % (le_value(m@) as int),
        minimal_bytes(r@),
{
    BigUint::from_bytes_le(b).modpow(&BigUint::from_bytes_le(e), &BigUint::from_bytes_le(m)).to_bytes_le()
}

/// The modulus as 32 little-endian bytes.
fn modulus_bytes() -> (r: Vec<u8>)
    ensures
        is_bn254_buffer(r@, bn254_modulus() as int),
{
    let r = vec![
        1u8, 0, 0, 240, 147, 245, 225, 67, 145, 112, 185, 121, 72, 232, 51, 40, 93, 88, 129, 129,
        182, 69, 80, 184, 41, 160, 49, 225, 114, 78, 100, 48,
    ];
    proof {
        reveal_with_fuel(le_value, 33);
    }
    r
}

/// The modulus minus two, the inversion exponent, as 32 little-endian bytes.
fn modulus_minus_two_bytes() -> (r: Vec<u8>)
    ensures
        is_bn254_buffer(r@, bn254_modulus() - 2),
{
    let r = vec![
        255u8, 255, 255, 239, 147, 245, 225, 67, 145, 112, 185, 121, 72, 232, 51, 40, 93, 88, 129,
        129, 182, 69, 80, 184, 41, 160, 49, 225, 114, 78, 100, 48,
    ];
    proof {
        reveal_with_fuel(le_value, 33);
    }
    r
}

proof fn lemma_modulus_bounds()
    ensures
        2 < bn254_modulus() < pow(256, 32),
{
    reveal_with_fuel(pow, 33);
}

proof fn lemma_le_push_zero(s: Seq<u8>)
    ensures
        le_value(s.push(0)) == le_value(s),
    decreases s.len(),
{
    assert(le_value(Seq::<u8>::empty()) == 0);
    assert(s.push(0)[0] == if s.len() == 0 { 0u8 } else { s[0] });
    if s.len() == 0 {
        assert(s.push(0).drop_first() =~= Seq::<u8>::empty());
    } else {
        assert(s.push(0).drop_first() =~= s.drop_first().push(0));
        lemma_le_push_zero(s.drop_first());
    }
}

/// A byte string whose last byte is not zero is at least `256^(len - 1)`.
proof fn lemma_le_lower(s: Seq<u8>)
    requires
        s.len() >= 1,
        s.last() != 0,
    ensures
        le_value(s) >= pow(256, (s.len() - 1) as nat),
    decreases s.len(),
{
    let rest = s.drop_first();
    if s.len() == 1 {
        assert(rest =~= Seq::<u8>::empty());
        vstd::arithmetic::power::lemma_pow0(256);
    } else {
        assert(rest.last() == s.last());
        lemma_le_lower(rest);
        vstd::arithmetic::power::lemma_pow_adds(256, 1, (s.len() - 2) as nat);
        vstd::arithmetic::power::lemma_pow1(256);
    }
}

/// Minimal bytes of a value below `256^n` number at most `n`.
proof fn lemma_minimal_len(s: Seq<u8>, n: nat)
    requires
        n >= 1,
        minimal_bytes(s),
        le_value(s) < pow(256, n),
    ensures
        s.len() <= n,
{
    if s.len() > n {
        lemma_le_lower(s);
        lemma_pow_increases(256, n, (s.len() - 1) as nat);
    }
}

/// Minimal bytes denote zero exactly when they are the single byte zero.
proof fn lemma_minimal_zero(s: Seq<u8>)
    requires
        minimal_bytes(s),
    ensures
        le_value(s) == 0 <==> (s.len() == 1 && s[0] == 0),
{
    if s.len() == 1 {
        assert(s.drop_first() =~= Seq::<u8>::empty());
        assert(le_value(Seq::<u8>::empty()) == 0);
    } else {
        lemma_le_lower(s);
        vstd::arithmetic::power::lemma_pow_positive(256, (s.len() - 1) as nat);
    }
}

/// Byte strings of one length with one value are equal.
proof fn lemma_le_injective(a: Seq<u8>, b: Seq<u8>)
    requires
        a.len() == b.len(),
        le_value(a) == le_value(b),
    ensures
        a == b,
    decreases a.len(),
{
    if a.len() > 0 {
        let v = le_value(a) as int;
        lemma_fundamental_div_mod_converse(v, 256, le_value(a.drop_first()) as int, a[0] as int);
        lemma_fundamental_div_mod_converse(v, 256, le_value(b.drop_first()) as int, b[0] as int);
        lemma_le_injective(a.drop_first(), b.drop_first());
        assert(a =~= b) by {
            assert forall|i: int| 0 <= i < a.len() implies a[i] == b[i] by {
                if i > 0 {
                    assert(a[i] == a.drop_first()[i - 1]);
                    assert(b[i] == b.drop_first()[i - 1]);
                }
            }
        }
    } else {
        assert(a =~= b);
    }
}

/// Pads minimal bytes of a value below the modulus to 32 bytes.
fn to_buffer(v: Vec<u8>) -> (r: Vec<u8>)
    requires
        minimal_bytes(v@),
        le_value(v@) < bn254_modulus(),
    ensures
        is_bn254_buffer(r@, le_value(v@) as int),
{
    proof {
        lemma_modulus_bounds();
        lemma_minimal_len(v@, 32);
    }
    let ghost v0 = v@;
    let mut r = v;
    while r.len() < BN254_BYTES
        invariant
            r@.len() <= BN254_BYTES,
            le_value(r@) == le_value(v0),
        decreases BN254_BYTES - r@.len(),
    {
        proof { lemma_le_push_zero(r@); }
        r.push(0);
    }
    r
}

/// `a` reduced modulo the modulus, as minimal bytes.
fn reduce_min(a: &[u8], m: &Vec<u8>) -> (r: Vec<u8>)
    requires
        is_bn254_buffer(m@, bn254_modulus() as int),
    ensures
        minimal_bytes(r@),
        bytes_value(r@) == bytes_value(a@) % bn254_p(),
        bytes_value(r@) < bn254_p(),
{
    proof { lemma_modulus_bounds(); }
    let r = big_rem(a, m.as_slice());
    proof { lemma_mod_bound(bytes_value(a@), bn254_p()); }
    r
}

/// Reduces a 32-byte buffer modulo the group order.
pub fn bn254_field_reduce(a: &[u8]) -> (r: Vec<u8>)
    requires
        a@.len() == BN254_BYTES,
    ensures
        is_bn254_buffer(r@, bytes_value(a@) % bn254_p()),
{
    let m = modulus_bytes();
    to_buffer(reduce_min(a, &m))
}

/// Addition modulo the group order on 32-byte buffers.
pub fn bn254_field_add(a: &[u8], b: &[u8]) -> (r: Vec<u8>)
    requires
        a@.len() == BN254_BYTES,
        b@.len() == BN254_BYTES,
    ensures
        is_bn254_buffer(r@, (bytes_value(a@) + bytes_value(b@)) % bn254_p()),
{
    let m = modulus_bytes();
    let x = reduce_min(a, &m);
    let y = reduce_min(b, &m);
    let t = big_add(x.as_slice(), y.as_slice());
    let u = reduce_min(t.as_slice(), &m);
    proof {
        vstd::arithmetic::div_mod::lemma_add_mod_noop(
            le_value(a@) as int,
            le_value(b@) as int,
            bn254_modulus() as int,
        );
    }
    to_buffer(u)
}

/// Subtraction modulo the group order on 32-byte buffers.
pub fn bn254_field_sub(a: &[u8], b: &[u8]) -> (r: Vec<u8>)
    requires
        a@.len() == BN254_BYTES,
        b@.len() == BN254_BYTES,
    ensures
        is_bn254_buffer(r@, (bytes_value(a@) - bytes_value(b@)) % bn254_p()),
{
    let m = modulus_bytes();
    let x = reduce_min(a, &m);
    let y = reduce_min(b, &m);
    let c = big_sub(m.as_slice(), y.as_slice());
    let t = big_add(x.as_slice(), c.as_slice());
    let u = reduce_min(t.as_slice(), &m);
    proof {
        let p = bn254_modulus() as int;
        let xv = le_value(x@) as int;
        let yv = le_value(y@) as int;
        vstd::arithmetic::div_mod::lemma_mod_add_multiples_vanish(xv - yv, p);
        vstd::arithmetic::div_mod::lemma_sub_mod_noop(le_value(a@) as int, le_value(b@) as int, p);
    }
    to_buffer(u)
}

/// Negation modulo the group order on a 32-byte buffer.
pub fn bn254_field_neg(a: &[u8]) -> (r: Vec<u8>)
    requires
        a@.len() == BN254_BYTES,
    ensures
        is_bn254_buffer(r@, (-bytes_value(a@)) % bn254_p()),
{
    let m = modulus_bytes();
    let x = reduce_min(a, &m);
    let c = big_sub(m.as_slice(), x.as_slice());
    let u = reduce_min(c.as_slice(), &m);
    proof {
        let p = bn254_modulus() as int;
        let xv = le_value(x@) as int;
        vstd::arithmetic::div_mod::lemma_mod_add_multiples_vanish(-xv, p);
        vstd::arithmetic::div_mod::lemma_sub_mod_noop(0, le_value(a@) as int, p);
        lemma_small_mod(0, p as nat);
    }
    to_buffer(u)
}

/// Multiplication modulo the group order on 32-byte buffers.
pub fn bn254_field_mul(a: &[u8], b: &[u8]) -> (r: Vec<u8>)
    requires
        a@.len() == BN254_BYTES,
        b@.len() == BN254_BYTES,
    ensures
        is_bn254_buffer(r@, (bytes_value(a@) * bytes_value(b@)) % bn254_p()),
{
    let m = modulus_bytes();
    let x = reduce_min(a, &m);
    let y = reduce_min(b, &m);
    let t = big_mul(x.as_slice(), y.as_slice());
    let u = reduce_min(t.as_slice(), &m);
    proof {
        vstd::arithmetic::div_mod::lemma_mul_mod_noop(
            le_value(a@) as int,
            le_value(b@) as int,
            bn254_modulus() as int,
        );
    }
    to_buffer(u)
}

/// The inverse modulo the group order, `a^(r - 2)`, on a 32-byte buffer;
/// fails when `a` is zero modulo `r`.
pub fn bn254_field_inv(a: &[u8]) -> (r: Result<Vec<u8>, FieldError>)
    requires
        a@.len() == BN254_BYTES,
    ensures
        bytes_value(a@) % bn254_p() == 0 <==> r is Err,
        r is Err ==> r == Err::<Vec<u8>, FieldError>(FieldError::DivisionByZero),
        r matches Ok(v) ==> is_bn254_buffer(v@, fpow(bytes_value(a@) % bn254_p(), (bn254_p() - 2) as nat)),
{
    let m = modulus_bytes();
    let x = reduce_min(a, &m);
    proof { lemma_minimal_zero(x@); }
    if x.len() == 1 && x[0] == 0 {
        Err(FieldError::DivisionByZero)
    } else {
        let e = modulus_minus_two_bytes();
        let u = big_modpow(x.as_slice(), e.as_slice(), m.as_slice());
        proof {
            lemma_mod_bound(pow(bytes_value(x@), le_value(e@)), bn254_p());
        }
        Ok(to_buffer(u))
    }
}

/// Division `a / b` modulo the group order on 32-byte buffers: `a` times the
/// inverse of `b`; fails when `b` is zero modulo `r`.
pub fn bn254_field_div(a: &[u8], b: &[u8]) -> (r: Result<Vec<u8>, FieldError>)
    requires
        a@.len() == BN254_BYTES,
        b@.len() == BN254_BYTES,
    ensures
        bytes_value(b@) % bn254_p() == 0 <==> r is Err,
        r is Err ==> r == Err::<Vec<u8>, FieldError>(FieldError::DivisionByZero),
        r matches Ok(v) ==> is_bn254_buffer(
            v@,
            fmul(bytes_value(a@), fpow(bytes_value(b@) % bn254_p(), (bn254_p() - 2) as nat)),
        ),
{
    match bn254_field_inv(b) {
        Ok(w) => Ok(bn254_field_mul(a, w.as_slice())),
        Err(e) => Err(e),
    }
}

/// Whether two 32-byte buffers denote the same element modulo `r`.
pub fn bn254_field_is_equal(a: &[u8], b: &[u8]) -> (r: bool)
    requires
        a@.len() == BN254_BYTES,
        b@.len() == BN254_BYTES,
    ensures
        r == (bytes_value(a@) % bn254_p() == bytes_value(b@) % bn254_p()),
{
    let x = bn254_field_reduce(a);
    let y = bn254_field_reduce(b);
    let mut i: usize = 0;
    while i < BN254_BYTES
        invariant
            is_bn254_buffer(x@, bytes_value(a@) % bn254_p()),
            is_bn254_buffer(y@, bytes_value(b@) % bn254_p()),
            i <= BN254_BYTES,
            forall|j: int| 0 <= j < i ==> x@[j] == y@[j],
        decreases BN254_BYTES - i,
    {
        if x[i] != y[i] {
            proof {
                if le_value(x@) == le_value(y@) {
                    lemma_le_injective(x@, y@);
                }
            }
            return false;
        }
        i = i + 1;
    }
    proof {
        assert(x@ =~= y@);
    }
    true
}

/// Multiplication in the field, on integers.
pub open spec fn fmul(a: int, b: int) -> int {
    (a * b) % bn254_p()
}

/// Addition in the field, on integers.
pub open spec fn fadd(a: int, b: int) -> int {
    (a + b) % bn254_p()
}

/// Subtraction in the field, on integers.
pub open spec fn fsub(a: int, b: int) -> int {
    (a - b) % bn254_p()
}

/// Exponentiation in the field, on integers.
pub open spec fn fpow(a: int, e: nat) -> int {
    pow(a, e) % bn254_p()
}

/// The S-box exponent `alpha`.
pub const BN254_ALPHA: u8 = 5;

/// The flystel constant `beta`, a generator of the multiplicative group.
pub open spec fn bn254_beta() -> int {
    5
}

/// The flystel constant `delta`, the inverse of `beta`.
pub open spec fn bn254_delta() -> int {
    limbs_value(0xe7f3fbd4c6666667, 0xa9ae5ce9ca4a2d06, 0x49b9b57c33cd568b, 0x135b52945a13d9aa) as int
}

/// The inverse power-map exponent: `alpha * inv_alpha == 1 (mod r - 1)`.
pub open spec fn bn254_inv_alpha() -> nat {
    limbs_value(0xcfe7f7a98ccccccd, 0x535cb9d394945a0d, 0x93736af8679aad17, 0x26b6a528b427b354)
}

fn beta_bytes() -> (r: Vec<u8>)
    ensures
        is_bn254_buffer(r@, bn254_beta()),
{
    let r = vec![
        5u8, 0, 0, 0, 0, 0, 0, 0, 0, 0, 0, 0, 0, 0, 0, 0, 0, 0, 0, 0, 0, 0, 0, 0, 0, 0, 0, 0, 0,
        0, 0, 0,
    ];
    proof {
        reveal_with_fuel(le_value, 33);
    }
    r
}

fn delta_bytes() -> (r: Vec<u8>)
    ensures
        is_bn254_buffer(r@, bn254_delta()),
{
    let r = vec![
        103u8, 102, 102, 198, 212, 251, 243, 231, 6, 45, 74, 202, 233, 92, 174, 169, 139, 86, 205,
        51, 124, 181, 185, 73, 170, 217, 19, 90, 148, 82, 91, 19,
    ];
    proof {
        reveal_with_fuel(le_value, 33);
    }
    r
}

fn inv_alpha_bytes() -> (r: Vec<u8>)
    ensures
        is_bn254_buffer(r@, bn254_inv_alpha() as int),
{
    let r = vec![
        205u8, 204, 204, 140, 169, 247, 231, 207, 13, 90, 148, 148, 211, 185, 92, 83, 23, 173, 154,
        103, 248, 106, 115, 147, 84, 179, 39, 180, 40, 165, 182, 38,
    ];
    proof {
        reveal_with_fuel(le_value, 33);
    }
    r
}

/// `x' = x - beta y^2` of the flystel on reduced inputs.
pub open spec fn flystel_x1(x: int, y: int) -> int {
    fsub(x, fmul(fmul(y, y), bn254_beta()))
}

/// `y' = y - x'^(1/alpha)` of the flystel.
pub open spec fn flystel_y1(x: int, y: int) -> int {
    fsub(y, fpow(flystel_x1(x, y), bn254_inv_alpha()))
}

/// `x' + beta y'^2 + delta` of the flystel.
pub open spec fn flystel_x2(x: int, y: int) -> int {
    let y1 = flystel_y1(x, y);
    fadd(flystel_x1(x, y), fadd(fmul(fmul(y1, y1), bn254_beta()), bn254_delta()))
}

/// The flystel S-box of the two-register instance on a 64-byte state
/// buffer `(x, y)`; each half is reduced modulo `r` first.
pub fn bn254_anemoi_2_sbox_layer(input: &[u8]) -> (r: Vec<u8>)
    requires
        input@.len() == 2 * BN254_BYTES,
    ensures
        r@.len() == 2 * BN254_BYTES,
        ({
            let x = bytes_value(input@.subrange(0, 32)) % bn254_p();
            let y = bytes_value(input@.subrange(32, 64)) % bn254_p();
            &&& bytes_value(r@.subrange(0, 32)) == flystel_x2(x, y)
            &&& bytes_value(r@.subrange(32, 64)) == flystel_y1(x, y)
        }),
{
    let m = modulus_bytes();
    let beta = beta_bytes();
    let delta = delta_bytes();
    let x = bn254_field_reduce(vstd::slice::slice_subrange(input, 0, BN254_BYTES));
    let y = bn254_field_reduce(vstd::slice::slice_subrange(input, BN254_BYTES, 2 * BN254_BYTES));
    let y2 = bn254_field_mul(y.as_slice(), y.as_slice());
    let t = bn254_field_mul(y2.as_slice(), beta.as_slice());
    let x1 = bn254_field_sub(x.as_slice(), t.as_slice());
    let ia = inv_alpha_bytes();
    proof { lemma_modulus_bounds(); }
    let e = big_modpow(x1.as_slice(), ia.as_slice(), m.as_slice());
    proof {
        lemma_mod_bound(pow(bytes_value(x1@), le_value(ia@)), bn254_p());
    }
    let xa = to_buffer(e);
    let y1 = bn254_field_sub(y.as_slice(), xa.as_slice());
    let z = bn254_field_mul(y1.as_slice(), y1.as_slice());
    let z2 = bn254_field_mul(z.as_slice(), beta.as_slice());
    let z3 = bn254_field_add(z2.as_slice(), delta.as_slice());
    let x2 = bn254_field_add(x1.as_slice(), z3.as_slice());
    let mut r = x2;
    let mut i: usize = 0;
    while i < BN254_BYTES
        invariant
            i <= BN254_BYTES,
            x2@.len() == BN254_BYTES,
            y1@.len() == BN254_BYTES,
            r@ =~= x2@ + y1@.subrange(0, i as int),
        decreases BN254_BYTES - i,
    {
        r.push(y1[i]);
        i = i + 1;
    }
    assert(r@.subrange(0, 32) =~= x2@);
    assert(r@.subrange(32, 64) =~= y1@);
    r
}

/// The S-box parameters of the two-register instance: `alpha`, and the
/// 32-byte buffers of `beta` and `delta`.
pub fn bn254_anemoi_2_get_sbox_parameters() -> (r: (u8, Vec<u8>, Vec<u8>))
    ensures
        r.0 == BN254_ALPHA,
        is_bn254_buffer(r.1@, bn254_beta()),
        is_bn254_buffer(r.2@, bn254_delta()),
{
    (BN254_ALPHA, beta_bytes(), delta_bytes())
}

/// Adding then subtracting the same element gives back a reduced element.
pub proof fn law_bn254_add_sub_cancel(a: int, b: int)
    requires
        0 <= a < bn254_p(),
    ensures
        fsub(fadd(a, b), b) == a,
{
    let p = bn254_p();
    let q = (a + b) / p;
    vstd::arithmetic::div_mod::lemma_fundamental_div_mod(a + b, p);
    assert((a + b) % p - b == p * (-q) + a) by (nonlinear_arith)
        requires
            a + b == p * q + (a + b) % p,
    ;
    vstd::arithmetic::div_mod::lemma_mod_multiples_vanish(-q, a, p);
    lemma_small_mod(a as nat, p as nat);
}

/// Reducing an already reduced value changes nothing.
pub proof fn law_bn254_reduce_idempotent(x: int)
    ensures
        (x % bn254_p()) % bn254_p() == x % bn254_p(),
{
    vstd::arithmetic::div_mod::lemma_mod_twice(x, bn254_p());
}

} // verus!
