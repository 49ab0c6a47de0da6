//! Non-linear layers: the power maps and the quadratic-mixing layer of the
//! wide 12-register permutation.
use vstd::prelude::*;
use vstd::arithmetic::power::pow;
use crate::field::{Felt, felt_of, add_spec, sub_spec, mul_spec, pow_spec};

verus! {

/// Direct power-map exponent; the smallest exponent coprime to `p - 1`.
pub const D: u64 = 7;

/// Inverse power-map exponent: `D * INV_D == 1 (mod p - 1)`.
pub const INV_D: u64 = 10540996611094048183;

/// Every element of `s` is canonical.
pub open spec fn all_wf(s: Seq<Felt>) -> bool {
    forall|i: int| 0 <= i < s.len() ==> #[trigger] s[i].wf()
}

/// `(index - 1) * z0 + z1 + z2`.
pub open spec fn linear_spec(index: int, z0: Felt, z1: Felt, z2: Felt) -> Felt {
    add_spec(add_spec(mul_spec(felt_of(index - 1), z0), z1), z2)
}

/// `l^2 + alpha * l + beta`.
pub open spec fn quadratic_spec(l: Felt, alpha: Felt, beta: Felt) -> Felt {
    add_spec(add_spec(mul_spec(l, l), mul_spec(alpha, l)), beta)
}

/// Register `k` of the state after the non-linear layer.
pub open spec fn non_linear_reg(s: Seq<Felt>, alpha: Seq<Felt>, beta: Seq<Felt>, k: nat) -> Felt
    decreases k,
{
    if k == 0 {
        pow_spec(s[0], INV_D as nat)
    } else if k == 1 {
        pow_spec(s[1], D as nat)
    } else {
        let l = linear_spec(
            k as int,
            non_linear_reg(s, alpha, beta, 0),
            non_linear_reg(s, alpha, beta, 1),
            non_linear_reg(s, alpha, beta, (k - 1) as nat),
        );
        mul_spec(s[k as int], quadratic_spec(l, alpha[k - 2], beta[k - 2]))
    }
}

/// The state after the non-linear layer.
pub open spec fn non_linear_spec(s: Seq<Felt>, alpha: Seq<Felt>, beta: Seq<Felt>) -> Seq<Felt> {
    Seq::new(s.len(), |k: int| non_linear_reg(s, alpha, beta, k as nat))
}

/// The direct then the inverse power map raise to the power
/// `D * INV_D = 4 (p - 1) + 1`.
pub proof fn law_power_maps_compose(x: Felt)
    requires
        x.wf(),
    ensures
        pow_spec(pow_spec(x, D as nat), INV_D as nat) == pow_spec(x, (D * INV_D) as nat),
        D * INV_D == 4 * (crate::field::modulus() - 1) + 1,
{
    let xv = x.value as int;
    vstd::arithmetic::power::lemma_pow_mod_noop(pow(xv, D as nat), INV_D as nat, crate::field::modulus());
    crate::field::lemma_felt_of_wf(pow(xv, D as nat));
    vstd::arithmetic::power::lemma_pow_multiplies(xv, D as nat, INV_D as nat);
}

/// Raises `x` to the power `D`.
pub fn pow_d(x: &mut Felt)
    requires
        old(x).wf(),
    ensures
        final(x).wf(),
        *final(x) == pow_spec(*old(x), D as nat),
{
    *x = x.exp(D);
}

/// Raises `x` to the power `INV_D`, the inverse of `pow_d`.
pub fn pow_inv_d(x: &mut Felt)
    requires
        old(x).wf(),
    ensures
        final(x).wf(),
        *final(x) == pow_spec(*old(x), INV_D as nat),
{
    *x = x.exp(INV_D);
}

/// The linear form `(index - 1) * z0 + z1 + z2` feeding register `index`.
pub fn linear_function(index: u64, z0: Felt, z1: Felt, z2: Felt) -> (r: Felt)
    requires
        index >= 1,
        z0.wf(),
        z1.wf(),
        z2.wf(),
    ensures
        r.wf(),
        r == linear_spec(index as int, z0, z1, z2),
{
    Felt::new(index - 1).mul(z0).add(z1).add(z2)
}

/// Applies the quadratic-mixing non-linear layer: register 0 goes through the inverse power
/// map, register 1 through the direct one, and each later register `k` is
/// multiplied by `l^2 + alpha[k - 2] l + beta[k - 2]` where
/// `l = (k - 1) r0 + r1 + r[k - 1]` over the registers already updated,
/// strictly in register order.
pub fn apply_non_linear(state: &mut Vec<Felt>, alpha: &Vec<Felt>, beta: &Vec<Felt>)
    requires
        old(state)@.len() >= 3,
        all_wf(old(state)@),
        alpha@.len() == old(state)@.len() - 2,
        beta@.len() == old(state)@.len() - 2,
        all_wf(alpha@),
        all_wf(beta@),
    ensures
        final(state)@ == non_linear_spec(old(state)@, alpha@, beta@),
        all_wf(final(state)@),
{
    let ghost s0 = state@;
    let n = state.len();
    let mut z0 = state[0];
    pow_inv_d(&mut z0);
    state.set(0, z0);
    let mut z1 = state[1];
    pow_d(&mut z1);
    state.set(1, z1);
    let mut k: usize = 2;
    while k < n
        invariant
            2 <= k <= n,
            state@.len() == n,
            s0.len() == n,
            all_wf(s0),
            all_wf(state@),
            all_wf(alpha@),
            all_wf(beta@),
            alpha@.len() == n - 2,
            beta@.len() == n - 2,
            z0 == state@[0],
            z1 == state@[1],
            forall|j: int| 0 <= j < k ==> state@[j] == non_linear_reg(s0, alpha@, beta@, j as nat),
            forall|j: int| k <= j < n ==> state@[j] == s0[j],
        decreases n - k,
    {
        let l = linear_function(k as u64, z0, z1, state[k - 1]);
        let q = l.square().add(alpha[k - 2].mul(l)).add(beta[k - 2]);
        let v = state[k].mul(q);
        state.set(k, v);
        k = k + 1;
    }
    assert(state@ =~= non_linear_spec(s0, alpha@, beta@));
}

/// Register `k` of the state after the flystel S-box layer. The state is
/// split into halves `x` and `y`; column `i` maps `(x, y)` to
/// `(x' + beta y'^2 + delta, y')` where `x' = x - beta y^2` and
/// `y' = y - x'^INV_D`.
pub open spec fn flystel_reg(s: Seq<Felt>, beta: Felt, delta: Felt, k: int) -> Felt {
    let c = s.len() / 2;
    let i = if k < c { k } else { k - c };
    let x1 = sub_spec(s[i], mul_spec(mul_spec(s[c + i], s[c + i]), beta));
    let y1 = sub_spec(s[c + i], pow_spec(x1, INV_D as nat));
    if k < c {
        add_spec(x1, add_spec(mul_spec(mul_spec(y1, y1), beta), delta))
    } else {
        y1
    }
}

/// The state after the flystel S-box layer.
pub open spec fn flystel_spec(s: Seq<Felt>, beta: Felt, delta: Felt) -> Seq<Felt> {
    Seq::new(s.len(), |k: int| flystel_reg(s, beta, delta, k))
}

/// Applies the flystel S-box layer column by column.
pub fn apply_flystel(state: &mut Vec<Felt>, beta: Felt, delta: Felt)
    requires
        old(state)@.len() % 2 == 0,
        all_wf(old(state)@),
        beta.wf(),
        delta.wf(),
    ensures
        final(state)@ == flystel_spec(old(state)@, beta, delta),
        all_wf(final(state)@),
{
    let ghost s0 = state@;
    let n = state.len();
    let c = n / 2;
    let mut i: usize = 0;
    while i < c
        invariant
            n == s0.len(),
            c == s0.len() / 2,
            s0.len() % 2 == 0,
            state@.len() == s0.len(),
            all_wf(s0),
            all_wf(state@),
            beta.wf(),
            delta.wf(),
            i <= c,
            forall|j: int| 0 <= j < i ==> state@[j] == flystel_reg(s0, beta, delta, j),
            forall|j: int| c <= j < c + i ==> state@[j] == flystel_reg(s0, beta, delta, j),
            forall|j: int| i <= j < c ==> state@[j] == s0[j],
            forall|j: int| c + i <= j < 2 * c ==> state@[j] == s0[j],
        decreases c - i,
    {
        let x = state[i];
        let y = state[c + i];
        let x1 = x.sub(y.square().mul(beta));
        let mut t = x1;
        pow_inv_d(&mut t);
        let y1 = y.sub(t);
        let x2 = x1.add(y1.square().mul(beta).add(delta));
        state.set(i, x2);
        state.set(c + i, y1);
        i = i + 1;
    }
    assert(state@ =~= flystel_spec(s0, beta, delta));
}

} // verus!
