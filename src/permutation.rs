//! Hash instances and the fixed-round permutation built from their layers.
use vstd::prelude::*;
use vstd::arithmetic::div_mod::{lemma_fundamental_div_mod, lemma_fundamental_div_mod_converse};
use crate::field::{Felt, add_spec};
use crate::nonlinear::{all_wf, non_linear_spec, flystel_spec, apply_non_linear, apply_flystel};
use crate::linear::{STATE_WIDTH, mds_spec, mat_vec_spec, apply_mds, mat_vec_mult};

verus! {

/// The S-box stage of an instance.
#[derive(Debug)]
pub enum NonLinearLayer {
    /// Register 0 through the inverse power map, register 1 through the
    /// direct one, later registers multiplied by quadratics with the
    /// per-register constants `alphas` and `betas`.
    QuadraticMixing { alphas: Vec<Felt>, betas: Vec<Felt> },
    /// The open flystel butterfly on the two halves of the state.
    Flystel { beta: Felt, delta: Felt },
}

/// The diffusion stage of an instance.
#[derive(Debug)]
pub enum LinearLayer {
    /// The lazy-reduction butterfly network on 12 registers.
    Butterfly,
    /// A row-major square matrix, applied with a reduction after every addition.
    Matrix { matrix: Vec<u64> },
}

/// Which rounds add round constants.
#[derive(Clone, Copy, Debug, PartialEq, Eq, Structural)]
pub enum Schedule {
    /// Every round ends with constant addition.
    Uniform,
    /// Every round but the last ends with constant addition.
    TruncatedFinal,
}

/// The parameters that fix a permutation and the constructions on it.
#[derive(Debug)]
pub struct Instance {
    /// Registers in the state.
    pub width: usize,
    /// Registers in the rate; the rest form the capacity.
    pub rate: usize,
    /// Elements in a digest.
    pub digest_size: usize,
    /// Rounds in one permutation.
    pub num_rounds: usize,
    pub non_linear: NonLinearLayer,
    pub linear: LinearLayer,
    pub schedule: Schedule,
    /// Round constants, one row of `width` elements per round, used cyclically.
    pub round_constants: Vec<Vec<Felt>>,
}

impl Instance {
    pub open spec fn wf(&self) -> bool {
        &&& 1 <= self.rate < self.width
        &&& self.digest_size <= self.rate
        &&& self.num_rounds >= 1
        &&& self.round_constants@.len() >= 1
        &&& forall|r: int|
            0 <= r < self.round_constants@.len() ==> (#[trigger] self.round_constants@[r])@.len()
                == self.width && all_wf(self.round_constants@[r]@)
        &&& match self.non_linear {
            NonLinearLayer::QuadraticMixing { alphas, betas } => {
                &&& self.width >= 3
                &&& alphas@.len() == self.width - 2
                &&& betas@.len() == self.width - 2
                &&& all_wf(alphas@)
                &&& all_wf(betas@)
            },
            NonLinearLayer::Flystel { beta, delta } => {
                &&& self.width % 2 == 0
                &&& beta.wf()
                &&& delta.wf()
            },
        }
        &&& match self.linear {
            LinearLayer::Butterfly => self.width == STATE_WIDTH,
            LinearLayer::Matrix { matrix } => matrix@.len() == self.width * self.width,
        }
    }
}

/// Whether every element of `s` is canonical.
fn all_canonical(s: &Vec<Felt>) -> (r: bool)
    ensures
        r == all_wf(s@),
{
    let mut i: usize = 0;
    while i < s.len()
        invariant
            i <= s@.len(),
            forall|j: int| 0 <= j < i ==> #[trigger] s@[j].wf(),
        decreases s@.len() - i,
    {
        if s[i].value >= crate::field::MODULUS {
            assert(!s@[i as int].wf());
            return false;
        }
        i = i + 1;
    }
    true
}

impl Instance {
    /// Checks the instance's parameters: the conditions of `wf`.
    pub fn is_valid(&self) -> (r: bool)
        ensures
            r == self.wf(),
    {
        if !(1 <= self.rate && self.rate < self.width && self.digest_size <= self.rate
            && self.num_rounds >= 1 && self.round_constants.len() >= 1) {
            return false;
        }
        let mut k: usize = 0;
        while k < self.round_constants.len()
            invariant
                k <= self.round_constants@.len(),
                forall|r: int|
                    0 <= r < k ==> (#[trigger] self.round_constants@[r])@.len() == self.width
                        && all_wf(self.round_constants@[r]@),
            decreases self.round_constants@.len() - k,
        {
            let row = &self.round_constants[k];
            if row.len() != self.width || !all_canonical(row) {
                return false;
            }
            k = k + 1;
        }
        let non_linear_ok = match &self.non_linear {
            NonLinearLayer::QuadraticMixing { alphas, betas } => {
                self.width >= 3 && alphas.len() == self.width - 2 && betas.len() == self.width - 2
                    && all_canonical(alphas) && all_canonical(betas)
            },
            NonLinearLayer::Flystel { beta, delta } => {
                self.width % 2 == 0 && beta.value < crate::field::MODULUS && delta.value
                    < crate::field::MODULUS
            },
        };
        let linear_ok = match &self.linear {
            LinearLayer::Butterfly => self.width == STATE_WIDTH,
            LinearLayer::Matrix { matrix } => {
                let n = matrix.len();
                let w = self.width;
                proof {
                    lemma_fundamental_div_mod(n as int, w as int);
                    if n == w * w {
                        lemma_fundamental_div_mod_converse(n as int, w as int, w as int, 0);
                    }
                }
                n % w == 0 && n / w == w
            },
        };
        non_linear_ok && linear_ok
    }
}

/// A state of the instance's width holding canonical elements.
pub open spec fn state_ok(inst: &Instance, s: Seq<Felt>) -> bool {
    s.len() == inst.width && all_wf(s)
}

pub open spec fn non_linear_layer_spec(inst: &Instance, s: Seq<Felt>) -> Seq<Felt> {
    match inst.non_linear {
        NonLinearLayer::QuadraticMixing { alphas, betas } => non_linear_spec(s, alphas@, betas@),
        NonLinearLayer::Flystel { beta, delta } => flystel_spec(s, beta, delta),
    }
}

pub open spec fn linear_layer_spec(inst: &Instance, s: Seq<Felt>) -> Seq<Felt> {
    match inst.linear {
        LinearLayer::Butterfly => mds_spec(s),
        LinearLayer::Matrix { matrix } => mat_vec_spec(matrix@, s),
    }
}

/// Non-linear layer, then linear layer.
pub open spec fn round_body_spec(inst: &Instance, s: Seq<Felt>) -> Seq<Felt> {
    linear_layer_spec(inst, non_linear_layer_spec(inst, s))
}

/// The constants of round `step`: the table is indexed cyclically.
pub open spec fn constants_row(inst: &Instance, step: nat) -> Seq<Felt> {
    inst.round_constants@[(step % inst.round_constants@.len()) as int]@
}

pub open spec fn add_constants_spec(s: Seq<Felt>, c: Seq<Felt>) -> Seq<Felt> {
    Seq::new(s.len(), |i: int| add_spec(s[i], c[i]))
}

/// A full round: non-linear layer, linear layer, constant addition.
pub open spec fn round_spec(inst: &Instance, s: Seq<Felt>, step: nat) -> Seq<Felt> {
    add_constants_spec(round_body_spec(inst, s), constants_row(inst, step))
}

/// The first `n` full rounds.
pub open spec fn rounds_spec(inst: &Instance, s: Seq<Felt>, n: nat) -> Seq<Felt>
    decreases n,
{
    if n == 0 {
        s
    } else {
        round_spec(inst, rounds_spec(inst, s, (n - 1) as nat), (n - 1) as nat)
    }
}

/// The permutation: `num_rounds` full rounds, or under the truncated-final
/// schedule `num_rounds - 1` full rounds and a last round without constants.
pub open spec fn permutation_spec(inst: &Instance, s: Seq<Felt>) -> Seq<Felt> {
    match inst.schedule {
        Schedule::Uniform => rounds_spec(inst, s, inst.num_rounds as nat),
        Schedule::TruncatedFinal => round_body_spec(
            inst,
            rounds_spec(inst, s, (inst.num_rounds - 1) as nat),
        ),
    }
}

/// Applies the instance's S-box stage.
pub fn apply_non_linear_layer(inst: &Instance, state: &mut Vec<Felt>)
    requires
        inst.wf(),
        state_ok(inst, old(state)@),
    ensures
        final(state)@ == non_linear_layer_spec(inst, old(state)@),
        state_ok(inst, final(state)@),
{
    match &inst.non_linear {
        NonLinearLayer::QuadraticMixing { alphas, betas } => apply_non_linear(state, alphas, betas),
        NonLinearLayer::Flystel { beta, delta } => apply_flystel(state, *beta, *delta),
    }
}

/// Applies the instance's diffusion stage.
pub fn apply_linear_layer(inst: &Instance, state: &mut Vec<Felt>)
    requires
        inst.wf(),
        state_ok(inst, old(state)@),
    ensures
        final(state)@ == linear_layer_spec(inst, old(state)@),
        state_ok(inst, final(state)@),
{
    match &inst.linear {
        LinearLayer::Butterfly => apply_mds(state),
        LinearLayer::Matrix { matrix } => mat_vec_mult(matrix, state),
    }
}

/// Adds `c` register-wise into the state.
pub fn add_constants(state: &mut Vec<Felt>, c: &Vec<Felt>)
    requires
        c@.len() == old(state)@.len(),
        all_wf(old(state)@),
        all_wf(c@),
    ensures
        final(state)@ == add_constants_spec(old(state)@, c@),
        all_wf(final(state)@),
{
    let ghost s0 = state@;
    let n = state.len();
    let mut i: usize = 0;
    while i < n
        invariant
            n == s0.len(),
            c@.len() == n,
            state@.len() == n,
            all_wf(s0),
            all_wf(c@),
            all_wf(state@),
            i <= n,
            forall|j: int| 0 <= j < i ==> state@[j] == add_spec(s0[j], c@[j]),
            forall|j: int| i <= j < n ==> state@[j] == s0[j],
        decreases n - i,
    {
        let v = state[i].add(c[i]);
        state.set(i, v);
        i = i + 1;
    }
    assert(state@ =~= add_constants_spec(s0, c@));
}

/// One full round with the constants of round `step`.
pub fn apply_round(inst: &Instance, state: &mut Vec<Felt>, step: usize)
    requires
        inst.wf(),
        state_ok(inst, old(state)@),
    ensures
        final(state)@ == round_spec(inst, old(state)@, step as nat),
        state_ok(inst, final(state)@),
{
    let c = &inst.round_constants[step % inst.round_constants.len()];
    apply_non_linear_layer(inst, state);
    apply_linear_layer(inst, state);
    add_constants(state, c);
}

/// Applies the permutation to the state in place.
pub fn apply_permutation(inst: &Instance, state: &mut Vec<Felt>)
    requires
        inst.wf(),
        state_ok(inst, old(state)@),
    ensures
        final(state)@ == permutation_spec(inst, old(state)@),
        state_ok(inst, final(state)@),
{
    let ghost s0 = state@;
    let full = match inst.schedule {
        Schedule::Uniform => inst.num_rounds,
        Schedule::TruncatedFinal => inst.num_rounds - 1,
    };
    let mut i: usize = 0;
    while i < full
        invariant
            inst.wf(),
            i <= full,
            state_ok(inst, state@),
            state@ == rounds_spec(inst, s0, i as nat),
        decreases full - i,
    {
        apply_round(inst, state, i);
        i = i + 1;
    }
    if inst.schedule == Schedule::TruncatedFinal {
        apply_non_linear_layer(inst, state);
        apply_linear_layer(inst, state);
    }
}

/// Applying the permutation to equal states gives equal states.
pub proof fn law_permutation_deterministic(inst: &Instance, s: Seq<Felt>, t: Seq<Felt>)
    requires
        s == t,
    ensures
        permutation_spec(inst, s) == permutation_spec(inst, t),
{
}

} // verus!
