use primus_fhe_core::tfhe::rotation_plan::{
    direct_exponents, plan_blind_rotation, switch_exponents, RotationStep,
};

#[test]
fn plan_skips_zero_exponents_and_alternates_buffers() {
    let plan = plan_blind_rotation(3, &[0, 5, 0, 2, 7], 8);
    assert_eq!(plan.initial_exponent, 5);
    assert_eq!(
        plan.steps,
        vec![
            RotationStep { index: 1, exponent: 5, into_scratch: true },
            RotationStep { index: 3, exponent: 2, into_scratch: false },
            RotationStep { index: 4, exponent: 7, into_scratch: true },
        ]
    );
    assert!(plan.copy_back);
}

#[test]
fn plan_without_steps_needs_no_copy() {
    let plan = plan_blind_rotation(0, &[0, 0, 0], 16);
    assert_eq!(plan.initial_exponent, 0);
    assert!(plan.steps.is_empty());
    assert!(!plan.copy_back);
    let plan = plan_blind_rotation(1, &[4, 6], 16);
    assert_eq!(plan.initial_exponent, 15);
    assert_eq!(plan.steps.len(), 2);
    assert!(!plan.copy_back);
}

#[test]
fn planned_rotation_matches_the_phase() {
    // -e(b) + sum s_i e(a_i) mod 2N, checked on a concrete key
    let a = [0usize, 5, 0, 2, 7];
    let s = [1usize, 1, 0, 0, 1];
    let plan = plan_blind_rotation(3, &a, 8);
    let mut total = plan.initial_exponent;
    for step in &plan.steps {
        total += s[step.index] * step.exponent;
    }
    let expected = (8 - 3 + a.iter().zip(s.iter()).map(|(x, y)| x * y).sum::<usize>()) % 8;
    assert_eq!(total % 8, expected);
}

#[test]
fn exponents_from_coefficients() {
    // round(v * 8 / 17)
    assert_eq!(switch_exponents(&[0u32, 7, 16], Some(17), 8), vec![0, 3, 0]);
    assert_eq!(switch_exponents(&[1u32 << 29, 3u32 << 30], None, 8), vec![1, 6]);
    assert_eq!(direct_exponents(&[0u64, 3, 7], 8), vec![0, 3, 7]);
}
