//! The control flow of blind rotation, separated from the GLWE arithmetic.
//!
//! Blind rotation with LWE input `(a, b)` first rotates the accumulator by
//! `X^(-e(b))` and then, for every mask coefficient whose exponent `e(a_i)`
//! is non-zero, applies a CMUX by `X^(e(a_i))` controlled by the GGSW
//! encryption of `s_i`. The CMUX results alternate between the output
//! buffer and a scratch buffer; when the last result lands in the scratch
//! buffer it is copied back. Zero exponents are skipped: a rotation by
//! `X^0` leaves the accumulator unchanged whatever the key bit.
use crate::arith::is_power_of_two;
use crate::tfhe::blind_rotation::{direct_exponent, modulus_switch, switch_input_ok, switch_spec};
use crate::word::{modulus_value, FheUint};
use vstd::prelude::*;

verus! {

/// The positions of the non-zero exponents of `exps`, in increasing order.
pub open spec fn rotation_indices(exps: Seq<usize>) -> Seq<int>
    decreases exps.len(),
{
    if exps.len() == 0 {
        Seq::empty()
    } else {
        let prev = rotation_indices(exps.drop_last());
        if exps.last() != 0 {
            prev.push(exps.len() - 1)
        } else {
            prev
        }
    }
}

/// `(-e) mod 2N` for an exponent `e` in `[0, 2N)`.
pub open spec fn negated_exponent(e: nat, two_n: nat) -> nat {
    ((two_n - e) % (two_n as int)) as nat
}

/// `sum_i s_i e_i` over all positions.
pub open spec fn weighted_sum(exps: Seq<usize>, bits: Seq<nat>) -> int
    decreases exps.len(),
{
    if exps.len() == 0 {
        0
    } else {
        weighted_sum(exps.drop_last(), bits) + bits[exps.len() - 1] * exps.last()
    }
}

/// `sum_k s_{idx_k} e_{idx_k}` over the listed positions only.
pub open spec fn listed_sum(exps: Seq<usize>, idx: Seq<int>, bits: Seq<nat>) -> int
    decreases idx.len(),
{
    if idx.len() == 0 {
        0
    } else {
        listed_sum(exps, idx.drop_last(), bits) + bits[idx.last()] * exps[idx.last()]
    }
}

/// `sum_k s_{index_k} exponent_k` over planned steps.
pub open spec fn steps_sum(steps: Seq<RotationStep>, bits: Seq<nat>) -> int
    decreases steps.len(),
{
    if steps.len() == 0 {
        0
    } else {
        steps_sum(steps.drop_last(), bits) + bits[steps.last().index as int] * steps.last().exponent
    }
}

/// One CMUX step of blind rotation.
#[derive(Clone, Copy, Debug, PartialEq, Eq, Structural)]
pub struct RotationStep {
    /// Index of the mask coefficient, and of the GGSW key entry that
    /// controls the step.
    pub index: usize,
    /// Rotation exponent in `[0, 2N)`, never zero.
    pub exponent: usize,
    /// Whether the step reads the output buffer and writes the scratch
    /// buffer (otherwise it reads the scratch buffer and writes the output).
    pub into_scratch: bool,
}

/// The complete schedule of one blind rotation.
#[derive(Clone, Debug)]
pub struct BlindRotationPlan {
    /// The accumulator is first multiplied by `X^initial_exponent` into the
    /// output buffer.
    pub initial_exponent: usize,
    /// The CMUX steps, in order.
    pub steps: Vec<RotationStep>,
    /// Whether the scratch buffer holds the result at the end and must be
    /// copied to the output.
    pub copy_back: bool,
}

/// The plan that `plan_blind_rotation` computes, stated as a predicate.
pub open spec fn is_rotation_plan(
    plan: BlindRotationPlan,
    b_exponent: nat,
    a_exponents: Seq<usize>,
    two_n: nat,
) -> bool {
    let idx = rotation_indices(a_exponents);
    &&& plan.initial_exponent == negated_exponent(b_exponent, two_n)
    &&& plan.steps@.len() == idx.len()
    &&& forall|k: int|
        0 <= k < idx.len() ==> {
            &&& (#[trigger] plan.steps@[k]).index == idx[k]
            &&& plan.steps@[k].exponent == a_exponents[idx[k]]
            &&& plan.steps@[k].into_scratch == (k % 2 == 0)
        }
    &&& plan.copy_back == (idx.len() % 2 == 1)
}

/// The rotation indices of a prefix extended by one element.
proof fn lemma_rotation_indices_step(exps: Seq<usize>, i: int)
    requires
        0 <= i < exps.len(),
    ensures
        rotation_indices(exps.subrange(0, i + 1)) == if exps[i] != 0 {
            rotation_indices(exps.subrange(0, i)).push(i)
        } else {
            rotation_indices(exps.subrange(0, i))
        },
{
    assert(exps.subrange(0, i + 1).drop_last() =~= exps.subrange(0, i));
}

/// Every listed position is in range, holds a non-zero exponent, and the
/// positions strictly increase; every non-zero exponent is listed.
pub proof fn lemma_rotation_indices(exps: Seq<usize>)
    ensures
        forall|k: int|
            0 <= k < rotation_indices(exps).len() ==> 0 <= #[trigger] rotation_indices(exps)[k]
                < exps.len() && exps[rotation_indices(exps)[k]] != 0,
        forall|k: int, l: int|
            0 <= k < l < rotation_indices(exps).len() ==> #[trigger] rotation_indices(exps)[k]
                < #[trigger] rotation_indices(exps)[l],
        forall|i: int|
            0 <= i < exps.len() && #[trigger] exps[i] != 0 ==> exists|k: int|
                0 <= k < rotation_indices(exps).len() && rotation_indices(exps)[k] == i,
    decreases exps.len(),
{
    if exps.len() > 0 {
        let prev = exps.drop_last();
        lemma_rotation_indices(prev);
        let ip = rotation_indices(prev);
        assert forall|i: int| 0 <= i < exps.len() && #[trigger] exps[i] != 0 implies exists|k: int|
            0 <= k < rotation_indices(exps).len() && rotation_indices(exps)[k] == i by {
            if i < exps.len() - 1 {
                assert(prev[i] == exps[i]);
                let k = choose|k: int| 0 <= k < ip.len() && ip[k] == i;
                assert(rotation_indices(exps)[k] == i);
            } else {
                assert(rotation_indices(exps)[ip.len() as int] == i);
            }
        }
    }
}

/// Skipping the zero exponents does not change the weighted exponent sum.
pub proof fn lemma_skipped_steps_add_nothing(exps: Seq<usize>, bits: Seq<nat>)
    ensures
        listed_sum(exps, rotation_indices(exps), bits) == weighted_sum(exps, bits),
    decreases exps.len(),
{
    if exps.len() > 0 {
        let prev = exps.drop_last();
        lemma_skipped_steps_add_nothing(prev, bits);
        lemma_rotation_indices(prev);
        lemma_listed_sum_prefix(exps, rotation_indices(prev), bits);
        if exps.last() != 0 {
            let idx = rotation_indices(prev).push(exps.len() - 1);
            assert(idx.drop_last() =~= rotation_indices(prev));
        }
    }
}

/// Listed positions of a prefix give the same sum over the whole sequence.
proof fn lemma_listed_sum_prefix(exps: Seq<usize>, idx: Seq<int>, bits: Seq<nat>)
    requires
        exps.len() > 0,
        forall|k: int| 0 <= k < idx.len() ==> 0 <= #[trigger] idx[k] < exps.len() - 1,
    ensures
        listed_sum(exps, idx, bits) == listed_sum(exps.drop_last(), idx, bits),
    decreases idx.len(),
{
    if idx.len() > 0 {
        lemma_listed_sum_prefix(exps, idx.drop_last(), bits);
    }
}

/// Planned steps that follow listed positions add up to the listed sum.
proof fn lemma_steps_sum_listed(
    steps: Seq<RotationStep>,
    exps: Seq<usize>,
    idx: Seq<int>,
    bits: Seq<nat>,
)
    requires
        steps.len() == idx.len(),
        forall|k: int|
            0 <= k < idx.len() ==> (#[trigger] steps[k]).index == idx[k] && steps[k].exponent
                == exps[idx[k]],
    ensures
        steps_sum(steps, bits) == listed_sum(exps, idx, bits),
    decreases steps.len(),
{
    if steps.len() > 0 {
        lemma_steps_sum_listed(steps.drop_last(), exps, idx.drop_last(), bits);
        assert(steps[steps.len() - 1].index == idx[idx.len() - 1]);
    }
}

/// Law of blind rotation: for every key `s` with bits in `{0, 1}`, the
/// planned rotations add up to `-e(b) + sum_i s_i e(a_i)` modulo `2N`.
pub proof fn lemma_plan_rotates_by_phase(
    plan: BlindRotationPlan,
    b_exponent: nat,
    a_exponents: Seq<usize>,
    two_n: nat,
    bits: Seq<nat>,
)
    requires
        two_n > 0,
        b_exponent < two_n,
        is_rotation_plan(plan, b_exponent, a_exponents, two_n),
    ensures
        (plan.initial_exponent + steps_sum(plan.steps@, bits)) % (two_n as int) == (weighted_sum(
            a_exponents,
            bits,
        ) - b_exponent) % (two_n as int),
{
    lemma_skipped_steps_add_nothing(a_exponents, bits);
    lemma_steps_sum_listed(plan.steps@, a_exponents, rotation_indices(a_exponents), bits);
    let w = weighted_sum(a_exponents, bits);
    let t = two_n as int;
    assert((((t - b_exponent) % t) + w) % t == (w - b_exponent) % t) by {
        vstd::arithmetic::div_mod::lemma_add_mod_noop_right(w, t - b_exponent, t);
        vstd::arithmetic::div_mod::lemma_mod_add_multiples_vanish(w - b_exponent, t);
    }
}

/// The CMUX results stay consistent across the two buffers: the first step
/// reads the output buffer, every step reads the buffer the previous step
/// wrote, and the copy back happens exactly when the last step wrote the
/// scratch buffer, so that the output ends up holding the last result.
pub open spec fn buffers_consistent(plan: BlindRotationPlan) -> bool {
    let steps = plan.steps@;
    &&& steps.len() > 0 ==> steps[0].into_scratch
    &&& forall|k: int|
        0 <= k < steps.len() - 1 ==> #[trigger] steps[k + 1].into_scratch == !steps[k].into_scratch
    &&& plan.copy_back == (steps.len() > 0 && steps.last().into_scratch)
}

/// Law: every rotation plan keeps the buffers consistent.
pub proof fn lemma_plan_buffers_consistent(
    plan: BlindRotationPlan,
    b_exponent: nat,
    a_exponents: Seq<usize>,
    two_n: nat,
)
    requires
        is_rotation_plan(plan, b_exponent, a_exponents, two_n),
    ensures
        buffers_consistent(plan),
{
    let steps = plan.steps@;
    assert forall|k: int| 0 <= k < steps.len() - 1 implies #[trigger] steps[k + 1].into_scratch
        == !steps[k].into_scratch by {
        assert(steps[k].into_scratch == (k % 2 == 0));
        assert(steps[k + 1].into_scratch == ((k + 1) % 2 == 0));
    }
    if steps.len() > 0 {
        assert(steps[0].into_scratch);
        assert(steps[steps.len() - 1].into_scratch == ((steps.len() - 1) % 2 == 0));
    }
}

/// Plans a blind rotation from the rotation exponents of `b` and of the
/// mask coefficients.
pub fn plan_blind_rotation(b_exponent: usize, a_exponents: &[usize], two_n: usize) -> (plan:
    BlindRotationPlan)
    requires
        is_power_of_two(two_n as nat),
        b_exponent < two_n,
    ensures
        is_rotation_plan(plan, b_exponent as nat, a_exponents@, two_n as nat),
        buffers_consistent(plan),
{
    // wrapping_neg, masked to the power of two 2N
    let initial_exponent = if b_exponent == 0 {
        0
    } else {
        two_n - b_exponent
    };
    proof {
        if b_exponent == 0 {
            vstd::arithmetic::div_mod::lemma_mod_self_0(two_n as int);
        } else {
            vstd::arithmetic::div_mod::lemma_small_mod((two_n - b_exponent) as nat, two_n as nat);
        }
    }
    let mut steps: Vec<RotationStep> = Vec::new();
    let mut into_scratch = true;
    let mut i: usize = 0;
    while i < a_exponents.len()
        invariant
            i <= a_exponents@.len(),
            steps@.len() == rotation_indices(a_exponents@.subrange(0, i as int)).len(),
            into_scratch == (steps@.len() % 2 == 0),
            forall|k: int|
                0 <= k < steps@.len() ==> {
                    let idx = rotation_indices(a_exponents@.subrange(0, i as int));
                    &&& (#[trigger] steps@[k]).index == idx[k]
                    &&& steps@[k].exponent == a_exponents@[idx[k]]
                    &&& steps@[k].into_scratch == (k % 2 == 0)
                },
        decreases a_exponents@.len() - i,
    {
        proof {
            lemma_rotation_indices_step(a_exponents@, i as int);
        }
        let exponent = a_exponents[i];
        if exponent != 0 {
            steps.push(RotationStep { index: i, exponent, into_scratch });
            into_scratch = !into_scratch;
        }
        i = i + 1;
    }
    proof {
        assert(a_exponents@.subrange(0, a_exponents@.len() as int) =~= a_exponents@);
    }
    let copy_back = !into_scratch;
    let plan = BlindRotationPlan { initial_exponent, steps, copy_back };
    proof {
        lemma_plan_buffers_consistent(plan, b_exponent as nat, a_exponents@, two_n as nat);
    }
    plan
}

/// Switches every coefficient into a rotation exponent in `[0, 2N)`.
pub fn switch_exponents<T: FheUint>(values: &[T], modulus: Option<T>, two_n: usize) -> (r: Vec<
    usize,
>)
    requires
        forall|i: int| 0 <= i < values@.len() ==> switch_input_ok(#[trigger] values@[i], modulus, two_n),
    ensures
        r@.len() == values@.len(),
        forall|i: int|
            0 <= i < values@.len() ==> #[trigger] r@[i] == switch_spec(
                values@[i].nat_value(),
                modulus_value(modulus),
                two_n as nat,
            ) && r@[i] < two_n,
{
    let mut r: Vec<usize> = Vec::new();
    let mut i: usize = 0;
    while i < values.len()
        invariant
            i <= values@.len(),
            r@.len() == i,
            forall|j: int| 0 <= j < values@.len() ==> switch_input_ok(#[trigger] values@[j], modulus, two_n),
            forall|j: int|
                0 <= j < i ==> #[trigger] r@[j] == switch_spec(
                    values@[j].nat_value(),
                    modulus_value(modulus),
                    two_n as nat,
                ) && r@[j] < two_n,
        decreases values@.len() - i,
    {
        r.push(modulus_switch(values[i], modulus, two_n));
        i = i + 1;
    }
    r
}

/// Reads every coefficient as a rotation exponent that already lies in
/// `[0, 2N)`.
pub fn direct_exponents<T: FheUint>(values: &[T], two_n: usize) -> (r: Vec<usize>)
    requires
        forall|i: int| 0 <= i < values@.len() ==> (#[trigger] values@[i]).nat_value() < two_n,
    ensures
        r@.len() == values@.len(),
        forall|i: int| 0 <= i < values@.len() ==> #[trigger] r@[i] == values@[i].nat_value(),
{
    let mut r: Vec<usize> = Vec::new();
    let mut i: usize = 0;
    while i < values.len()
        invariant
            i <= values@.len(),
            r@.len() == i,
            forall|j: int| 0 <= j < values@.len() ==> (#[trigger] values@[j]).nat_value() < two_n,
            forall|j: int| 0 <= j < i ==> #[trigger] r@[j] == values@[j].nat_value(),
        decreases values@.len() - i,
    {
        r.push(direct_exponent(values[i], two_n));
        i = i + 1;
    }
    r
}

} // verus!
