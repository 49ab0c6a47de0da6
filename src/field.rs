//! Prime-field elements modulo `p = 2^64 - 2^32 + 1`, kept in canonical form.
use vstd::prelude::*;
use vstd::arithmetic::div_mod::*;
use vstd::arithmetic::power::*;

verus! {

/// The field modulus `p = 2^64 - 2^32 + 1`.
pub const MODULUS: u64 = 0xFFFF_FFFF_0000_0001;

/// Width in bytes of a serialized field element.
pub const FELT_BYTES: usize = 8;

pub open spec fn modulus() -> int {
    MODULUS as int
}

/// A residue modulo `MODULUS`; well-formed when canonical (`value < MODULUS`).
#[derive(Clone, Copy, Debug, PartialEq, Eq, Structural)]
pub struct Felt {
    pub value: u64,
}

/// Errors of field arithmetic.
#[derive(Clone, Copy, Debug, PartialEq, Eq, Structural)]
pub enum FieldError {
    /// Inversion of zero.
    DivisionByZero,
}

/// The canonical field element congruent to `x`.
pub open spec fn felt_of(x: int) -> Felt {
    Felt { value: (x % modulus()) as u64 }
}

pub open spec fn add_spec(a: Felt, b: Felt) -> Felt {
    felt_of(a.value + b.value)
}

pub open spec fn sub_spec(a: Felt, b: Felt) -> Felt {
    felt_of(a.value - b.value)
}

pub open spec fn neg_spec(a: Felt) -> Felt {
    felt_of(-(a.value as int))
}

pub open spec fn mul_spec(a: Felt, b: Felt) -> Felt {
    felt_of(a.value * b.value)
}

pub open spec fn pow_spec(a: Felt, e: nat) -> Felt {
    felt_of(pow(a.value as int, e))
}

/// Little-endian value of a byte string of any length.
pub open spec fn le_value(b: Seq<u8>) -> nat
    decreases b.len(),
{
    if b.len() == 0 {
        0
    } else {
        b[0] as nat + 256 * le_value(b.drop_first())
    }
}

pub proof fn lemma_felt_of_wf(x: int)
    ensures
        felt_of(x).wf(),
        felt_of(x).value as int == x % modulus(),
{
    lemma_mod_bound(x, modulus());
}

/// `felt_of` carries integer addition to field addition.
pub proof fn lemma_add_felt_of(x: int, y: int)
    ensures
        add_spec(felt_of(x), felt_of(y)) == felt_of(x + y),
{
    lemma_felt_of_wf(x);
    lemma_felt_of_wf(y);
    lemma_add_mod_noop(x, y, modulus());
}

/// `felt_of` carries integer subtraction to field subtraction.
pub proof fn lemma_sub_felt_of(x: int, y: int)
    ensures
        sub_spec(felt_of(x), felt_of(y)) == felt_of(x - y),
{
    lemma_felt_of_wf(x);
    lemma_felt_of_wf(y);
    lemma_sub_mod_noop(x, y, modulus());
}

/// `felt_of` carries integer multiplication to field multiplication.
pub proof fn lemma_mul_felt_of(x: int, y: int)
    ensures
        mul_spec(felt_of(x), felt_of(y)) == felt_of(x * y),
{
    lemma_felt_of_wf(x);
    lemma_felt_of_wf(y);
    lemma_mul_mod_noop(x, y, modulus());
}

/// A canonical element is its own reduction.
pub proof fn lemma_felt_of_canonical(a: Felt)
    requires
        a.wf(),
    ensures
        felt_of(a.value as int) == a,
{
    lemma_small_mod(a.value as nat, modulus() as nat);
}

/// One step of square-and-multiply keeps the accumulated product.
proof fn lemma_exp_step(a: int, b: int, k: nat)
    ensures
        (if k % 2 == 1 { (a * b) % modulus() } else { a }) * pow((b * b) % modulus(), k / 2)
            % modulus() == (a * pow(b, k)) % modulus(),
{
    let m = modulus();
    let h = k / 2;
    let q = pow((b * b) % m, h);
    let w = pow(b * b, h);
    lemma_pow_mod_noop(b * b, h, m);
    assert(pow(b, 2) == b * b) by {
        reveal_with_fuel(pow, 3);
    }
    lemma_pow_multiplies(b, 2, h);
    assert(pow(b, 2 * h) == w);
    if k % 2 == 1 {
        lemma_pow_adds(b, 2 * h, 1);
        lemma_pow1(b);
        assert(pow(b, k) == w * b);
        lemma_mul_mod_noop_left(a * b, q, m);
        lemma_mul_mod_noop_right(a * b, q, m);
        lemma_mul_mod_noop_right(a * b, w, m);
        assert((a * b) * w == a * (w * b)) by (nonlinear_arith);
    } else {
        assert(k == 2 * h);
        lemma_mul_mod_noop_right(a, q, m);
        lemma_mul_mod_noop_right(a, w, m);
    }
}

/// Little-endian value of a byte string whose first byte is `b`.
proof fn lemma_le_value_cons(b: u8, s: Seq<u8>)
    ensures
        le_value(seq![b] + s) == b as nat + 256 * le_value(s),
{
    assert((seq![b] + s).drop_first() =~= s);
}

/// Adding then subtracting the same element gives back the first operand.
pub proof fn law_add_sub_cancel(a: Felt, b: Felt)
    requires
        a.wf(),
        b.wf(),
    ensures
        sub_spec(add_spec(a, b), b) == a,
{
    lemma_felt_of_canonical(b);
    lemma_sub_felt_of(a.value + b.value, b.value as int);
    lemma_felt_of_canonical(a);
}

/// Multiplying by `b` and then by the inverse of `b` multiplies by
/// `b^(p - 1)`.
pub proof fn law_mul_inverse_power(a: Felt, b: Felt)
    requires
        a.wf(),
        b.wf(),
    ensures
        mul_spec(mul_spec(a, b), pow_spec(b, (modulus() - 2) as nat)) == mul_spec(
            a,
            pow_spec(b, (modulus() - 1) as nat),
        ),
{
    let av = a.value as int;
    let bv = b.value as int;
    let e = (modulus() - 2) as nat;
    let w = pow(bv, e);
    lemma_felt_of_canonical(a);
    lemma_mul_felt_of(av * bv, w);
    lemma_pow_adds(bv, 1, e);
    lemma_pow1(bv);
    assert(pow(bv, (modulus() - 1) as nat) == bv * w);
    lemma_mul_felt_of(av, bv * w);
    assert(av * bv * w == av * (bv * w)) by (nonlinear_arith);
}

/// Reducing an already reduced value changes nothing.
pub proof fn law_reduce_idempotent(x: int)
    ensures
        felt_of(felt_of(x).value as int) == felt_of(x),
{
    lemma_felt_of_wf(x);
    lemma_felt_of_canonical(felt_of(x));
}

/// Reading back any byte string that denotes a canonical element gives
/// that element.
pub proof fn law_bytes_round_trip(a: Felt, bytes: Seq<u8>)
    requires
        a.wf(),
        le_value(bytes) == a.value,
    ensures
        felt_of(le_value(bytes) as int) == a,
{
    lemma_felt_of_canonical(a);
}

impl Felt {
    pub open spec fn wf(self) -> bool {
        self.value < MODULUS
    }

    pub open spec fn val(self) -> int {
        self.value as int
    }

    /// The element `v mod p`.
    pub fn new(v: u64) -> (r: Felt)
        ensures
            r.wf(),
            r == felt_of(v as int),
    {
        proof { lemma_felt_of_wf(v as int); }
        if v >= MODULUS {
            proof { lemma_fundamental_div_mod_converse(v as int, modulus(), 1, v - modulus()); }
            Felt { value: v - MODULUS }
        } else {
            proof { lemma_small_mod(v as nat, modulus() as nat); }
            Felt { value: v }
        }
    }

    pub fn zero() -> (r: Felt)
        ensures
            r.wf(),
            r.value == 0,
    {
        Felt { value: 0 }
    }

    pub fn one() -> (r: Felt)
        ensures
            r.wf(),
            r.value == 1,
    {
        Felt { value: 1 }
    }

    /// The element `v mod p` for a wide unreduced accumulator.
    pub fn reduce_wide(v: u128) -> (r: Felt)
        ensures
            r.wf(),
            r == felt_of(v as int),
    {
        proof { lemma_felt_of_wf(v as int); }
        Felt { value: (v % (MODULUS as u128)) as u64 }
    }

    /// The canonical integer representative.
    pub fn as_u64(self) -> (r: u64)
        ensures
            r == self.value,
    {
        self.value
    }

    pub fn is_zero(self) -> (r: bool)
        ensures
            r == (self.value == 0),
    {
        self.value == 0
    }

    pub fn add(self, other: Felt) -> (r: Felt)
        requires
            self.wf(),
            other.wf(),
        ensures
            r.wf(),
            r == add_spec(self, other),
    {
        proof { lemma_felt_of_wf(self.value + other.value); }
        let s: u128 = self.value as u128 + other.value as u128;
        Felt { value: (s % (MODULUS as u128)) as u64 }
    }

    pub fn sub(self, other: Felt) -> (r: Felt)
        requires
            self.wf(),
            other.wf(),
        ensures
            r.wf(),
            r == sub_spec(self, other),
    {
        proof { lemma_felt_of_wf(self.value - other.value); }
        if self.value >= other.value {
            proof { lemma_small_mod((self.value - other.value) as nat, modulus() as nat); }
            Felt { value: self.value - other.value }
        } else {
            proof {
                lemma_fundamental_div_mod_converse(
                    self.value - other.value,
                    modulus(),
                    -1,
                    self.value - other.value + modulus(),
                );
            }
            Felt { value: self.value + (MODULUS - other.value) }
        }
    }

    pub fn neg(self) -> (r: Felt)
        requires
            self.wf(),
        ensures
            r.wf(),
            r == neg_spec(self),
    {
        let z = Felt::zero();
        z.sub(self)
    }

    pub fn mul(self, other: Felt) -> (r: Felt)
        requires
            self.wf(),
            other.wf(),
        ensures
            r.wf(),
            r == mul_spec(self, other),
    {
        proof {
            lemma_felt_of_wf(self.value * other.value);
            assert(self.value * other.value <= 0xFFFF_FFFF_FFFF_FFFFu64 * 0xFFFF_FFFF_FFFF_FFFFu64)
                by (nonlinear_arith)
                requires
                    self.value <= 0xFFFF_FFFF_FFFF_FFFFu64,
                    other.value <= 0xFFFF_FFFF_FFFF_FFFFu64,
            ;
        }
        let s: u128 = self.value as u128 * other.value as u128;
        Felt { value: (s % (MODULUS as u128)) as u64 }
    }

    pub fn square(self) -> (r: Felt)
        requires
            self.wf(),
        ensures
            r.wf(),
            r == mul_spec(self, self),
    {
        self.mul(self)
    }

    /// `self` raised to the power `e`, by square-and-multiply.
    pub fn exp(self, e: u64) -> (r: Felt)
        requires
            self.wf(),
        ensures
            r.wf(),
            r == pow_spec(self, e as nat),
    {
        let mut acc = Felt::one();
        let mut base = self;
        let mut k: u64 = e;
        proof {
            lemma_pow0(self.value as int);
            assert(acc.val() == 1);
            assert(base.val() == self.val());
            vstd::arithmetic::mul::lemma_mul_basics(pow(self.val(), e as nat));
        }
        while k > 0
            invariant
                acc.wf(),
                base.wf(),
                (acc.val() * pow(base.val(), k as nat)) % modulus() == pow(self.val(), e as nat)
                    % modulus(),
            decreases k,
        {
            proof { lemma_exp_step(acc.val(), base.val(), k as nat); }
            if k % 2 == 1 {
                acc = acc.mul(base);
            }
            base = base.square();
            k = k / 2;
        }
        proof {
            lemma_pow0(base.val());
            lemma_small_mod(acc.value as nat, modulus() as nat);
            lemma_felt_of_wf(pow(self.val(), e as nat));
        }
        acc
    }

    /// The multiplicative inverse `self^(p-2)`; fails on zero.
    pub fn inv(self) -> (r: Result<Felt, FieldError>)
        requires
            self.wf(),
        ensures
            self.value == 0 <==> r == Err::<Felt, FieldError>(FieldError::DivisionByZero),
            self.value != 0 ==> r == Ok::<Felt, FieldError>(
                pow_spec(self, (modulus() - 2) as nat),
            ),
    {
        if self.value == 0 {
            Err(FieldError::DivisionByZero)
        } else {
            Ok(self.exp(MODULUS - 2))
        }
    }

    /// The element denoted by a little-endian byte string of any length,
    /// reduced modulo `p`.
    pub fn from_bytes_le(bytes: &[u8]) -> (r: Felt)
        ensures
            r.wf(),
            r == felt_of(le_value(bytes@) as int),
    {
        let n = bytes.len();
        let mut acc = Felt::zero();
        let mut i: usize = n;
        let radix = Felt::new(256);
        proof {
            assert(bytes@.subrange(n as int, n as int) =~= Seq::<u8>::empty());
            lemma_small_mod(0, modulus() as nat);
        }
        while i > 0
            invariant
                i <= n,
                n == bytes@.len(),
                acc.wf(),
                radix == felt_of(256),
                acc == felt_of(le_value(bytes@.subrange(i as int, n as int)) as int),
            decreases i,
        {
            let b = bytes[i - 1];
            let fb = Felt::new(b as u64);
            proof {
                let rest = bytes@.subrange(i as int, n as int);
                lemma_le_value_cons(b, rest);
                assert(seq![b] + rest =~= bytes@.subrange(i - 1, n as int));
                lemma_mul_felt_of(le_value(rest) as int, 256);
                lemma_add_felt_of(le_value(rest) as int * 256, b as int);
            }
            acc = acc.mul(radix).add(fb);
            i = i - 1;
        }
        assert(bytes@.subrange(0, n as int) =~= bytes@);
        acc
    }

    /// The canonical value as `FELT_BYTES` little-endian bytes.
    pub fn to_bytes_le(self) -> (r: Vec<u8>)
        requires
            self.wf(),
        ensures
            r@.len() == FELT_BYTES,
            le_value(r@) == self.value,
    {
        proof {
            assert(pow(256, 8) == 0x1_0000_0000_0000_0000) by {
                reveal_with_fuel(pow, 9);
            }
        }
        digits_le(self.value, FELT_BYTES)
    }
}

/// The `n` low base-256 digits of `v`, least significant first.
fn digits_le(v: u64, n: usize) -> (r: Vec<u8>)
    requires
        v < pow(256, n as nat),
    ensures
        r@.len() == n,
        le_value(r@) == v,
    decreases n,
{
    if n == 0 {
        proof { lemma_pow0(256); }
        Vec::new()
    } else {
        let hi = v / 256;
        let lo = (v % 256) as u8;
        proof {
            lemma_pow_adds(256, 1, (n - 1) as nat);
            lemma_pow1(256);
            let t = pow(256, (n - 1) as nat);
            assert(hi < t) by (nonlinear_arith)
                requires
                    v < 256 * t,
                    hi == v / 256,
            ;
        }
        let mut r = digits_le(hi, n - 1);
        let ghost rest = r@;
        r.insert(0, lo);
        proof {
            assert(r@ =~= seq![lo] + rest);
            lemma_le_value_cons(lo, rest);
        }
        r
    }
}

} // verus!
