//! The linear diffusion layer: a lazy-reduction butterfly network for the
//! 12-register state and a generic matrix-vector product.
use vstd::prelude::*;
use crate::field::{Felt, felt_of, add_spec, mul_spec, lemma_add_felt_of, lemma_mul_felt_of, lemma_felt_of_canonical};
use crate::nonlinear::all_wf;

verus! {

/// Number of registers that the butterfly MDS layer acts on.
pub const STATE_WIDTH: usize = 12;

/// Entry `(l, m)` of the 4x4 block that the butterfly network computes.
pub open spec fn block_entry(l: int, m: int) -> int {
    if l == 0 {
        if m == 0 { 5 } else if m == 1 { 7 } else if m == 2 { 1 } else { 3 }
    } else if l == 1 {
        if m == 0 { 4 } else if m == 1 { 6 } else { 1 }
    } else if l == 2 {
        if m == 0 { 1 } else if m == 1 { 3 } else if m == 2 { 5 } else { 7 }
    } else {
        if m == 0 { 1 } else if m == 1 { 1 } else if m == 2 { 4 } else { 6 }
    }
}

/// Entry `(i, j)` of the 12x12 MDS matrix: the 4x4 block, doubled on the
/// block diagonal.
pub open spec fn mds_entry(i: int, j: int) -> int {
    if i / 4 == j / 4 {
        2 * block_entry(i % 4, j % 4)
    } else {
        block_entry(i % 4, j % 4)
    }
}

/// `sum_{j < n} row(j) * x[j]` over the integers.
pub open spec fn dot(row: spec_fn(int) -> int, x: Seq<Felt>, n: nat) -> int
    decreases n,
{
    if n == 0 {
        0
    } else {
        dot(row, x, (n - 1) as nat) + row(n - 1) * x[n - 1].value
    }
}

pub open spec fn mds_row(i: int) -> spec_fn(int) -> int {
    |j: int| mds_entry(i, j)
}

/// Row `i` of a row-major `w`-by-`w` matrix.
pub open spec fn matrix_row(matrix: Seq<u64>, w: int, i: int) -> spec_fn(int) -> int {
    |j: int| matrix[i * w + j] as int
}

/// The state after the MDS layer.
pub open spec fn mds_spec(s: Seq<Felt>) -> Seq<Felt> {
    Seq::new(STATE_WIDTH as nat, |i: int| felt_of(dot(mds_row(i), s, STATE_WIDTH as nat)))
}

/// The product of a row-major square matrix with the state.
pub open spec fn mat_vec_spec(matrix: Seq<u64>, s: Seq<Felt>) -> Seq<Felt> {
    Seq::new(s.len(), |i: int| felt_of(dot(matrix_row(matrix, s.len() as int, i), s, s.len())))
}

/// `matrix` is the MDS matrix, row-major.
pub open spec fn is_mds_matrix(matrix: Seq<u64>) -> bool {
    &&& matrix.len() == STATE_WIDTH * STATE_WIDTH
    &&& forall|i: int, j: int|
        0 <= i < STATE_WIDTH && 0 <= j < STATE_WIDTH ==> #[trigger] matrix[i * 12 + j] as int
            == mds_entry(i, j)
}

proof fn lemma_dot_ext(r1: spec_fn(int) -> int, r2: spec_fn(int) -> int, x: Seq<Felt>, n: nat)
    requires
        forall|j: int| 0 <= j < n ==> #[trigger] r1(j) == r2(j),
    ensures
        dot(r1, x, n) == dot(r2, x, n),
    decreases n,
{
    if n > 0 {
        lemma_dot_ext(r1, r2, x, (n - 1) as nat);
    }
}

/// The lazy-reduction butterfly layer and the plain product with the
/// declared MDS matrix give the same state.
pub proof fn law_mds_matches_matrix(s: Seq<Felt>, matrix: Seq<u64>)
    requires
        s.len() == STATE_WIDTH,
        is_mds_matrix(matrix),
    ensures
        mds_spec(s) == mat_vec_spec(matrix, s),
{
    assert forall|i: int| 0 <= i < STATE_WIDTH implies dot(mds_row(i), s, 12) == dot(
        matrix_row(matrix, 12, i),
        s,
        12,
    ) by {
        assert forall|j: int| 0 <= j < 12 implies #[trigger] mds_row(i)(j) == matrix_row(matrix, 12, i)(j) by {
            assert(matrix[i * 12 + j] as int == mds_entry(i, j));
        }
        lemma_dot_ext(mds_row(i), matrix_row(matrix, 12, i), s, 12);
    }
    assert(mds_spec(s) =~= mat_vec_spec(matrix, s));
}

/// The rows of the MDS matrix, written out.
proof fn lemma_mds_rows(s: Seq<Felt>)
    requires
        s.len() == STATE_WIDTH,
    ensures
        dot(mds_row(0), s, 12) == 10 * s[0].value + 14 * s[1].value + 2 * s[2].value + 6 * s[3].value + 5 * s[4].value + 7 * s[5].value + 1 * s[6].value + 3 * s[7].value + 5 * s[8].value + 7 * s[9].value + 1 * s[10].value + 3 * s[11].value,
        dot(mds_row(1), s, 12) == 8 * s[0].value + 12 * s[1].value + 2 * s[2].value + 2 * s[3].value + 4 * s[4].value + 6 * s[5].value + 1 * s[6].value + 1 * s[7].value + 4 * s[8].value + 6 * s[9].value + 1 * s[10].value + 1 * s[11].value,
        dot(mds_row(2), s, 12) == 2 * s[0].value + 6 * s[1].value + 10 * s[2].value + 14 * s[3].value + 1 * s[4].value + 3 * s[5].value + 5 * s[6].value + 7 * s[7].value + 1 * s[8].value + 3 * s[9].value + 5 * s[10].value + 7 * s[11].value,
        dot(mds_row(3), s, 12) == 2 * s[0].value + 2 * s[1].value + 8 * s[2].value + 12 * s[3].value + 1 * s[4].value + 1 * s[5].value + 4 * s[6].value + 6 * s[7].value + 1 * s[8].value + 1 * s[9].value + 4 * s[10].value + 6 * s[11].value,
        dot(mds_row(4), s, 12) == 5 * s[0].value + 7 * s[1].value + 1 * s[2].value + 3 * s[3].value + 10 * s[4].value + 14 * s[5].value + 2 * s[6].value + 6 * s[7].value + 5 * s[8].value + 7 * s[9].value + 1 * s[10].value + 3 * s[11].value,
        dot(mds_row(5), s, 12) == 4 * s[0].value + 6 * s[1].value + 1 * s[2].value + 1 * s[3].value + 8 * s[4].value + 12 * s[5].value + 2 * s[6].value + 2 * s[7].value + 4 * s[8].value + 6 * s[9].value + 1 * s[10].value + 1 * s[11].value,
        dot(mds_row(6), s, 12) == 1 * s[0].value + 3 * s[1].value + 5 * s[2].value + 7 * s[3].value + 2 * s[4].value + 6 * s[5].value + 10 * s[6].value + 14 * s[7].value + 1 * s[8].value + 3 * s[9].value + 5 * s[10].value + 7 * s[11].value,
        dot(mds_row(7), s, 12) == 1 * s[0].value + 1 * s[1].value + 4 * s[2].value + 6 * s[3].value + 2 * s[4].value + 2 * s[5].value + 8 * s[6].value + 12 * s[7].value + 1 * s[8].value + 1 * s[9].value + 4 * s[10].value + 6 * s[11].value,
        dot(mds_row(8), s, 12) == 5 * s[0].value + 7 * s[1].value + 1 * s[2].value + 3 * s[3].value + 5 * s[4].value + 7 * s[5].value + 1 * s[6].value + 3 * s[7].value + 10 * s[8].value + 14 * s[9].value + 2 * s[10].value + 6 * s[11].value,
        dot(mds_row(9), s, 12) == 4 * s[0].value + 6 * s[1].value + 1 * s[2].value + 1 * s[3].value + 4 * s[4].value + 6 * s[5].value + 1 * s[6].value + 1 * s[7].value + 8 * s[8].value + 12 * s[9].value + 2 * s[10].value + 2 * s[11].value,
        dot(mds_row(10), s, 12) == 1 * s[0].value + 3 * s[1].value + 5 * s[2].value + 7 * s[3].value + 1 * s[4].value + 3 * s[5].value + 5 * s[6].value + 7 * s[7].value + 2 * s[8].value + 6 * s[9].value + 10 * s[10].value + 14 * s[11].value,
        dot(mds_row(11), s, 12) == 1 * s[0].value + 1 * s[1].value + 4 * s[2].value + 6 * s[3].value + 1 * s[4].value + 1 * s[5].value + 4 * s[6].value + 6 * s[7].value + 2 * s[8].value + 2 * s[9].value + 8 * s[10].value + 12 * s[11].value,
{
    reveal_with_fuel(dot, 13);
}

/// One 4-register butterfly block, on unreduced accumulators.
fn butterfly(a: u128, b: u128, c: u128, d: u128) -> (r: (u128, u128, u128, u128))
    requires
        a < 0x1_0000_0000_0000_0000,
        b < 0x1_0000_0000_0000_0000,
        c < 0x1_0000_0000_0000_0000,
        d < 0x1_0000_0000_0000_0000,
    ensures
        r.0 == 5 * a + 7 * b + c + 3 * d,
        r.1 == 4 * a + 6 * b + c + d,
        r.2 == a + 3 * b + 5 * c + 7 * d,
        r.3 == a + b + 4 * c + 6 * d,
{
    let t0 = a + b;
    let t1 = c + d;
    let t2 = 2 * b + t1;
    let t3 = 2 * d + t0;
    let t4 = 4 * t1 + t3;
    let t5 = 4 * t0 + t2;
    let t6 = t3 + t5;
    let t7 = t2 + t4;
    (t6, t5, t7, t4)
}

/// The twelve unreduced outputs of the MDS layer: a butterfly per block of
/// four registers, then the sum of the blocks added back.
fn mds_accumulate(x: &Vec<Felt>) -> (v: [u128; 12])
    requires
        x@.len() == STATE_WIDTH,
    ensures
        v@[0] == 10 * x[0].value + 14 * x[1].value + 2 * x[2].value + 6 * x[3].value + 5 * x[4].value + 7 * x[5].value + 1 * x[6].value + 3 * x[7].value + 5 * x[8].value + 7 * x[9].value + 1 * x[10].value + 3 * x[11].value,
        v@[1] == 8 * x[0].value + 12 * x[1].value + 2 * x[2].value + 2 * x[3].value + 4 * x[4].value + 6 * x[5].value + 1 * x[6].value + 1 * x[7].value + 4 * x[8].value + 6 * x[9].value + 1 * x[10].value + 1 * x[11].value,
        v@[2] == 2 * x[0].value + 6 * x[1].value + 10 * x[2].value + 14 * x[3].value + 1 * x[4].value + 3 * x[5].value + 5 * x[6].value + 7 * x[7].value + 1 * x[8].value + 3 * x[9].value + 5 * x[10].value + 7 * x[11].value,
        v@[3] == 2 * x[0].value + 2 * x[1].value + 8 * x[2].value + 12 * x[3].value + 1 * x[4].value + 1 * x[5].value + 4 * x[6].value + 6 * x[7].value + 1 * x[8].value + 1 * x[9].value + 4 * x[10].value + 6 * x[11].value,
        v@[4] == 5 * x[0].value + 7 * x[1].value + 1 * x[2].value + 3 * x[3].value + 10 * x[4].value + 14 * x[5].value + 2 * x[6].value + 6 * x[7].value + 5 * x[8].value + 7 * x[9].value + 1 * x[10].value + 3 * x[11].value,
        v@[5] == 4 * x[0].value + 6 * x[1].value + 1 * x[2].value + 1 * x[3].value + 8 * x[4].value + 12 * x[5].value + 2 * x[6].value + 2 * x[7].value + 4 * x[8].value + 6 * x[9].value + 1 * x[10].value + 1 * x[11].value,
        v@[6] == 1 * x[0].value + 3 * x[1].value + 5 * x[2].value + 7 * x[3].value + 2 * x[4].value + 6 * x[5].value + 10 * x[6].value + 14 * x[7].value + 1 * x[8].value + 3 * x[9].value + 5 * x[10].value + 7 * x[11].value,
        v@[7] == 1 * x[0].value + 1 * x[1].value + 4 * x[2].value + 6 * x[3].value + 2 * x[4].value + 2 * x[5].value + 8 * x[6].value + 12 * x[7].value + 1 * x[8].value + 1 * x[9].value + 4 * x[10].value + 6 * x[11].value,
        v@[8] == 5 * x[0].value + 7 * x[1].value + 1 * x[2].value + 3 * x[3].value + 5 * x[4].value + 7 * x[5].value + 1 * x[6].value + 3 * x[7].value + 10 * x[8].value + 14 * x[9].value + 2 * x[10].value + 6 * x[11].value,
        v@[9] == 4 * x[0].value + 6 * x[1].value + 1 * x[2].value + 1 * x[3].value + 4 * x[4].value + 6 * x[5].value + 1 * x[6].value + 1 * x[7].value + 8 * x[8].value + 12 * x[9].value + 2 * x[10].value + 2 * x[11].value,
        v@[10] == 1 * x[0].value + 3 * x[1].value + 5 * x[2].value + 7 * x[3].value + 1 * x[4].value + 3 * x[5].value + 5 * x[6].value + 7 * x[7].value + 2 * x[8].value + 6 * x[9].value + 10 * x[10].value + 14 * x[11].value,
        v@[11] == 1 * x[0].value + 1 * x[1].value + 4 * x[2].value + 6 * x[3].value + 1 * x[4].value + 1 * x[5].value + 4 * x[6].value + 6 * x[7].value + 2 * x[8].value + 2 * x[9].value + 8 * x[10].value + 12 * x[11].value,
{
    let b0 = butterfly(x[0].value as u128, x[1].value as u128, x[2].value as u128, x[3].value as u128);
    let b1 = butterfly(x[4].value as u128, x[5].value as u128, x[6].value as u128, x[7].value as u128);
    let b2 = butterfly(x[8].value as u128, x[9].value as u128, x[10].value as u128, x[11].value as u128);
    let c0 = b0.0 + b1.0 + b2.0;
    let c1 = b0.1 + b1.1 + b2.1;
    let c2 = b0.2 + b1.2 + b2.2;
    let c3 = b0.3 + b1.3 + b2.3;
    [
        b0.0 + c0,
        b0.1 + c1,
        b0.2 + c2,
        b0.3 + c3,
        b1.0 + c0,
        b1.1 + c1,
        b1.2 + c2,
        b1.3 + c3,
        b2.0 + c0,
        b2.1 + c1,
        b2.2 + c2,
        b2.3 + c3,
    ]
}

/// Applies the MDS layer with wide unreduced accumulators and a single
/// reduction per output register.
pub fn apply_mds(state: &mut Vec<Felt>)
    requires
        old(state)@.len() == STATE_WIDTH,
        all_wf(old(state)@),
    ensures
        final(state)@ == mds_spec(old(state)@),
        all_wf(final(state)@),
{
    let ghost s0 = state@;
    let v = mds_accumulate(state);
    proof {
        lemma_mds_rows(s0);
        assert forall|k: int| 0 <= k < 12 implies v@[k] as int == #[trigger] dot(mds_row(k), s0, 12) by {
            if k == 0 {} else if k == 1 {} else if k == 2 {} else if k == 3 {}
            else if k == 4 {} else if k == 5 {} else if k == 6 {} else if k == 7 {}
            else if k == 8 {} else if k == 9 {} else if k == 10 {} else {}
        }
    }
    let mut out: Vec<Felt> = Vec::new();
    let mut k: usize = 0;
    while k < 12
        invariant
            k <= 12,
            out@.len() == k,
            forall|m: int| 0 <= m < 12 ==> v@[m] as int == #[trigger] dot(mds_row(m), s0, 12),
            forall|m: int| 0 <= m < k ==> out@[m] == #[trigger] mds_spec(s0)[m],
        decreases 12 - k,
    {
        out.push(Felt::reduce_wide(v[k]));
        k = k + 1;
    }
    assert(out@ =~= mds_spec(s0));
    *state = out;
}

/// Multiplies the state by a row-major square matrix, reducing after every
/// addition.
pub fn mat_vec_mult(matrix: &Vec<u64>, state: &mut Vec<Felt>)
    requires
        matrix@.len() == old(state)@.len() * old(state)@.len(),
        all_wf(old(state)@),
    ensures
        final(state)@ == mat_vec_spec(matrix@, old(state)@),
        all_wf(final(state)@),
{
    let ghost s0 = state@;
    let w = state.len();
    let n = matrix.len();
    let mut result: Vec<Felt> = Vec::new();
    let mut i: usize = 0;
    while i < w
        invariant
            w == s0.len(),
            state@ == s0,
            all_wf(s0),
            n == matrix@.len(),
            matrix@.len() == w * w,
            i <= w,
            result@.len() == i,
            all_wf(result@),
            forall|k: int| 0 <= k < i ==> result@[k] == felt_of(dot(matrix_row(matrix@, w as int, k), s0, w as nat)),
        decreases w - i,
    {
        let mut acc = Felt::zero();
        let mut j: usize = 0;
        proof { vstd::arithmetic::div_mod::lemma_small_mod(0, crate::field::modulus() as nat); }
        while j < w
            invariant
                w == s0.len(),
                state@ == s0,
                all_wf(s0),
                n == matrix@.len(),
                matrix@.len() == w * w,
                i < w,
                j <= w,
                acc.wf(),
                acc == felt_of(dot(matrix_row(matrix@, w as int, i as int), s0, j as nat)),
            decreases w - j,
        {
            assert(i * w + j < w * w) by (nonlinear_arith)
                requires
                    i < w,
                    j < w,
            ;
            let m = Felt::new(matrix[i * w + j]);
            proof {
                let row = matrix_row(matrix@, w as int, i as int);
                lemma_felt_of_canonical(s0[j as int]);
                lemma_mul_felt_of(row(j as int), s0[j as int].value as int);
                lemma_add_felt_of(dot(row, s0, j as nat), row(j as int) * s0[j as int].value);
            }
            acc = acc.add(m.mul(state[j]));
            j = j + 1;
        }
        result.push(acc);
        i = i + 1;
    }
    assert(result@ =~= mat_vec_spec(matrix@, s0));
    *state = result;
}

/// Entry `(l, m)` of the 4x4 block.
fn block_coefficient(l: usize, m: usize) -> (r: u64)
    requires
        l < 4,
        m < 4,
    ensures
        r == block_entry(l as int, m as int),
{
    if l == 0 {
        if m == 0 { 5 } else if m == 1 { 7 } else if m == 2 { 1 } else { 3 }
    } else if l == 1 {
        if m == 0 { 4 } else if m == 1 { 6 } else { 1 }
    } else if l == 2 {
        if m == 0 { 1 } else if m == 1 { 3 } else if m == 2 { 5 } else { 7 }
    } else {
        if m == 0 { 1 } else if m == 1 { 1 } else if m == 2 { 4 } else { 6 }
    }
}

/// The declared 12x12 MDS matrix, row-major.
pub fn mds_matrix() -> (r: Vec<u64>)
    ensures
        is_mds_matrix(r@),
{
    let mut r: Vec<u64> = Vec::new();
    let mut i: usize = 0;
    while i < STATE_WIDTH
        invariant
            i <= STATE_WIDTH,
            r@.len() == i * 12,
            forall|a: int, b: int| 0 <= a < i && 0 <= b < 12 ==> #[trigger] r@[a * 12 + b] as int == mds_entry(a, b),
        decreases STATE_WIDTH - i,
    {
        let mut j: usize = 0;
        while j < STATE_WIDTH
            invariant
                i < STATE_WIDTH,
                j <= STATE_WIDTH,
                r@.len() == i * 12 + j,
                forall|a: int, b: int| 0 <= a < i && 0 <= b < 12 ==> #[trigger] r@[a * 12 + b] as int == mds_entry(a, b),
                forall|b: int| 0 <= b < j ==> #[trigger] r@[i * 12 + b] as int == mds_entry(i as int, b),
            decreases STATE_WIDTH - j,
        {
            let e = block_coefficient(i % 4, j % 4);
            let v = if i / 4 == j / 4 { 2 * e } else { e };
            r.push(v);
            j = j + 1;
        }
        i = i + 1;
    }
    r
}

} // verus!
