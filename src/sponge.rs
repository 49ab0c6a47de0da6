//! The constructions on the permutation: fixed-arity compression and the
//! sponge-based extendable-output function.
use vstd::prelude::*;
use vstd::arithmetic::div_mod::lemma_fundamental_div_mod_converse;
use crate::field::{Felt, add_spec};
use crate::nonlinear::all_wf;
use crate::permutation::{Instance, state_ok, permutation_spec, apply_permutation};

verus! {

pub open spec fn zero_felt() -> Felt {
    Felt { value: 0 }
}

pub open spec fn one_felt() -> Felt {
    Felt { value: 1 }
}

/// The all-zero state of `n` registers.
pub open spec fn zero_state(n: nat) -> Seq<Felt> {
    Seq::new(n, |i: int| zero_felt())
}

/// State and rate position after absorbing the first `n` elements: each
/// element is added into the next rate register, and the state is permuted
/// each time the rate is filled.
pub open spec fn absorb_prefix(inst: &Instance, elems: Seq<Felt>, n: nat) -> (Seq<Felt>, nat)
    decreases n,
{
    if n == 0 {
        (zero_state(inst.width as nat), 0)
    } else {
        let (s, i) = absorb_prefix(inst, elems, (n - 1) as nat);
        let s1 = s.update(i as int, add_spec(s[i as int], elems[n - 1]));
        if i + 1 == inst.rate {
            (permutation_spec(inst, s1), 0)
        } else {
            (s1, i + 1)
        }
    }
}

/// The domain-separation constant: one when the input length is a multiple
/// of the rate, zero otherwise.
pub open spec fn sigma(inst: &Instance, len: nat) -> Felt {
    if len % (inst.rate as nat) == 0 {
        one_felt()
    } else {
        zero_felt()
    }
}

/// The state after the absorbing phase: `sigma` is added into the last
/// capacity register; when the input did not fill whole rate blocks, one is
/// added into the rate register after the last one written and the state is
/// permuted once more.
pub open spec fn absorb_spec(inst: &Instance, elems: Seq<Felt>) -> Seq<Felt> {
    let (s, i) = absorb_prefix(inst, elems, elems.len());
    let last = inst.width - 1;
    let s1 = s.update(last, add_spec(s[last], sigma(inst, elems.len())));
    if elems.len() % (inst.rate as nat) == 0 {
        s1
    } else {
        permutation_spec(inst, s1.update(i as int, add_spec(s1[i as int], one_felt())))
    }
}

/// The permutation applied `n` times.
pub open spec fn permute_times(inst: &Instance, s: Seq<Felt>, n: nat) -> Seq<Felt>
    decreases n,
{
    if n == 0 {
        s
    } else {
        permutation_spec(inst, permute_times(inst, s, (n - 1) as nat))
    }
}

/// The XOF output: element `k` is rate register `k mod rate` of the
/// absorbed state after `k / rate` further permutations.
pub open spec fn xof_spec(inst: &Instance, elems: Seq<Felt>, out_size: nat) -> Seq<Felt> {
    Seq::new(
        out_size,
        |k: int| permute_times(inst, absorb_spec(inst, elems), (k / inst.rate as int) as nat)[k
            % inst.rate as int],
    )
}

/// Absorbs `elems` into a fresh state.
fn absorb(inst: &Instance, elems: &[Felt]) -> (r: Vec<Felt>)
    requires
        inst.wf(),
        all_wf(elems@),
    ensures
        r@ == absorb_spec(inst, elems@),
        state_ok(inst, r@),
{
    let mut state: Vec<Felt> = Vec::new();
    let mut j: usize = 0;
    while j < inst.width
        invariant
            j <= inst.width,
            state@ =~= zero_state(j as nat),
        decreases inst.width - j,
    {
        state.push(Felt::zero());
        j = j + 1;
    }
    let sigma = if elems.len() % inst.rate == 0 {
        Felt::one()
    } else {
        Felt::zero()
    };
    let mut i: usize = 0;
    let mut n: usize = 0;
    while n < elems.len()
        invariant
            inst.wf(),
            all_wf(elems@),
            n <= elems@.len(),
            i < inst.rate,
            state_ok(inst, state@),
            (state@, i as nat) == absorb_prefix(inst, elems@, n as nat),
        decreases elems@.len() - n,
    {
        let v = state[i].add(elems[n]);
        state.set(i, v);
        i = i + 1;
        if i == inst.rate {
            apply_permutation(inst, &mut state);
            i = 0;
        }
        n = n + 1;
    }
    let last = inst.width - 1;
    let v = state[last].add(sigma);
    state.set(last, v);
    if sigma.is_zero() {
        let w = state[i].add(Felt::one());
        state.set(i, w);
        apply_permutation(inst, &mut state);
    }
    state
}

/// Squeezes `out_size` elements from an absorbed state.
fn squeeze(inst: &Instance, state: &mut Vec<Felt>, out_size: usize) -> (r: Vec<Felt>)
    requires
        inst.wf(),
        state_ok(inst, old(state)@),
    ensures
        r@.len() == out_size,
        forall|k: int|
            0 <= k < out_size ==> r@[k] == #[trigger] permute_times(
                inst,
                old(state)@,
                (k / inst.rate as int) as nat,
            )[k % inst.rate as int],
{
    let ghost s0 = state@;
    let ghost mut b: nat = 0;
    let mut res: Vec<Felt> = Vec::new();
    let mut i: usize = 0;
    let mut k: usize = 0;
    while k < out_size
        invariant
            inst.wf(),
            k <= out_size,
            res@.len() == k,
            i <= inst.rate,
            k == b * inst.rate + i,
            k == 0 ==> i == 0,
            state_ok(inst, state@),
            state@ == permute_times(inst, s0, b),
            forall|m: int|
                0 <= m < k ==> res@[m] == #[trigger] permute_times(
                    inst,
                    s0,
                    (m / inst.rate as int) as nat,
                )[m % inst.rate as int],
        decreases out_size - k,
    {
        if i == inst.rate {
            apply_permutation(inst, state);
            i = 0;
            proof {
                b = b + 1;
                assert(k == b * inst.rate + i) by (nonlinear_arith)
                    requires k == (b - 1) * inst.rate + inst.rate, i == 0;
            }
        }
        proof {
            lemma_fundamental_div_mod_converse(k as int, inst.rate as int, b as int, i as int);
        }
        res.push(state[i]);
        i = i + 1;
        k = k + 1;
    }
    res
}

/// The sponge XOF: absorbs `elems` into a fresh state, then squeezes
/// `out_size` elements.
pub fn anemoi_xof_field(inst: &Instance, elems: &[Felt], out_size: usize) -> (r: Vec<Felt>)
    requires
        inst.wf(),
        all_wf(elems@),
    ensures
        r@ == xof_spec(inst, elems@, out_size as nat),
{
    let mut state = absorb(inst, elems);
    let r = squeeze(inst, &mut state, out_size);
    assert(r@ =~= xof_spec(inst, elems@, out_size as nat));
    r
}

/// The state with `inputs` in its first registers and zero elsewhere.
pub open spec fn loaded_state(inst: &Instance, inputs: Seq<Felt>) -> Seq<Felt> {
    Seq::new(inst.width as nat, |i: int| if i < inputs.len() { inputs[i] } else { zero_felt() })
}

/// Compression: the inputs are loaded into the rate of a zero state, the
/// state is permuted, and the first `digest_size` registers are the digest.
pub open spec fn compress_spec(inst: &Instance, inputs: Seq<Felt>) -> Seq<Felt> {
    permutation_spec(inst, loaded_state(inst, inputs)).subrange(0, inst.digest_size as int)
}

/// Compresses up to `rate` elements into a digest.
pub fn compress(inst: &Instance, inputs: &[Felt]) -> (r: Vec<Felt>)
    requires
        inst.wf(),
        inputs@.len() <= inst.rate,
        all_wf(inputs@),
    ensures
        r@ == compress_spec(inst, inputs@),
{
    let mut state: Vec<Felt> = Vec::new();
    let mut j: usize = 0;
    while j < inst.width
        invariant
            inst.wf(),
            inputs@.len() <= inst.rate,
            all_wf(inputs@),
            j <= inst.width,
            state@ =~= loaded_state(inst, inputs@).subrange(0, j as int),
        decreases inst.width - j,
    {
        if j < inputs.len() {
            state.push(inputs[j]);
        } else {
            state.push(Felt::zero());
        }
        j = j + 1;
    }
    assert(state@ =~= loaded_state(inst, inputs@));
    apply_permutation(inst, &mut state);
    let mut r: Vec<Felt> = Vec::new();
    let mut k: usize = 0;
    while k < inst.digest_size
        invariant
            inst.wf(),
            k <= inst.digest_size,
            state_ok(inst, state@),
            r@ =~= state@.subrange(0, k as int),
        decreases inst.digest_size - k,
    {
        r.push(state[k]);
        k = k + 1;
    }
    r
}

/// Merges two digests: compression of their concatenation.
pub fn merge(inst: &Instance, left: &[Felt], right: &[Felt]) -> (r: Vec<Felt>)
    requires
        inst.wf(),
        left@.len() + right@.len() <= inst.rate,
        all_wf(left@),
        all_wf(right@),
    ensures
        r@ == compress_spec(inst, left@ + right@),
{
    let mut inputs: Vec<Felt> = Vec::new();
    let mut j: usize = 0;
    while j < left.len()
        invariant
            j <= left@.len(),
            inputs@ =~= left@.subrange(0, j as int),
        decreases left@.len() - j,
    {
        inputs.push(left[j]);
        j = j + 1;
    }
    j = 0;
    while j < right.len()
        invariant
            j <= right@.len(),
            inputs@ =~= left@ + right@.subrange(0, j as int),
        decreases right@.len() - j,
    {
        inputs.push(right[j]);
        j = j + 1;
    }
    assert(inputs@ =~= left@ + right@);
    compress(inst, inputs.as_slice())
}

/// The sum over registers `0 .. n` of input plus permuted register.
pub open spec fn jive_sum(inputs: Seq<Felt>, permuted: Seq<Felt>, n: nat) -> Felt
    decreases n,
{
    if n == 0 {
        zero_felt()
    } else {
        add_spec(
            jive_sum(inputs, permuted, (n - 1) as nat),
            add_spec(inputs[n - 1], permuted[n - 1]),
        )
    }
}

/// Jive compression: a whole state of inputs is permuted, and the inputs and
/// the permuted registers are all summed into one element.
pub open spec fn jive_spec(inst: &Instance, inputs: Seq<Felt>) -> Felt {
    jive_sum(inputs, permutation_spec(inst, inputs), inputs.len())
}

/// Compresses `width` elements into one by Jive feed-forward summation.
pub fn jive(inst: &Instance, inputs: &[Felt]) -> (r: Felt)
    requires
        inst.wf(),
        state_ok(inst, inputs@),
    ensures
        r.wf(),
        r == jive_spec(inst, inputs@),
{
    let mut state: Vec<Felt> = Vec::new();
    let mut j: usize = 0;
    while j < inputs.len()
        invariant
            j <= inputs@.len(),
            state@ =~= inputs@.subrange(0, j as int),
        decreases inputs@.len() - j,
    {
        state.push(inputs[j]);
        j = j + 1;
    }
    assert(state@ =~= inputs@);
    apply_permutation(inst, &mut state);
    let mut acc = Felt::zero();
    let mut k: usize = 0;
    while k < inputs.len()
        invariant
            k <= inputs@.len(),
            state@.len() == inputs@.len(),
            all_wf(inputs@),
            all_wf(state@),
            acc.wf(),
            acc == jive_sum(inputs@, state@, k as nat),
        decreases inputs@.len() - k,
    {
        acc = acc.add(inputs[k].add(state[k]));
        k = k + 1;
    }
    acc
}

/// Compressing equal inputs gives equal digests.
pub proof fn law_compress_deterministic(inst: &Instance, a: Seq<Felt>, b: Seq<Felt>)
    requires
        a == b,
    ensures
        compress_spec(inst, a) == compress_spec(inst, b),
{
}

/// An input of exactly `rate` elements takes the `sigma = 1` path and one of
/// `rate + 1` elements the `sigma = 0` path.
pub proof fn law_sigma_paths(inst: &Instance)
    requires
        inst.wf(),
        inst.rate >= 2,
    ensures
        sigma(inst, inst.rate as nat) == one_felt(),
        sigma(inst, (inst.rate + 1) as nat) == zero_felt(),
{
    lemma_fundamental_div_mod_converse(inst.rate as int, inst.rate as int, 1, 0);
    lemma_fundamental_div_mod_converse(inst.rate + 1, inst.rate as int, 1, 1);
}

/// Asking for fewer output elements gives a prefix of the longer output.
pub proof fn law_xof_prefix(inst: &Instance, elems: Seq<Felt>, n: nat, m: nat)
    requires
        n <= m,
    ensures
        xof_spec(inst, elems, n) == xof_spec(inst, elems, m).subrange(0, n as int),
{
    assert(xof_spec(inst, elems, n) =~= xof_spec(inst, elems, m).subrange(0, n as int));
}

/// The empty input fills no rate block, so it takes the `sigma = 1` path:
/// the absorbed state is the zero state with one in its last register, and
/// a digest squeezed from it is all zero.
pub proof fn law_xof_empty(inst: &Instance)
    requires
        inst.wf(),
    ensures
        absorb_spec(inst, Seq::empty()) == zero_state(inst.width as nat).update(
            inst.width - 1,
            one_felt(),
        ),
        xof_spec(inst, Seq::empty(), inst.digest_size as nat) == zero_state(
            inst.digest_size as nat,
        ),
{
    let e = Seq::<Felt>::empty();
    lemma_fundamental_div_mod_converse(0, inst.rate as int, 0, 0);
    vstd::arithmetic::div_mod::lemma_small_mod(1, crate::field::modulus() as nat);
    assert(absorb_spec(inst, e) =~= zero_state(inst.width as nat).update(inst.width - 1, one_felt()));
    assert forall|k: int| 0 <= k < inst.digest_size implies #[trigger] xof_spec(inst, e, inst.digest_size as nat)[k]
        == zero_felt() by {
        lemma_fundamental_div_mod_converse(k, inst.rate as int, 0, k);
    }
    assert(xof_spec(inst, e, inst.digest_size as nat) =~= zero_state(inst.digest_size as nat));
}

} // verus!
