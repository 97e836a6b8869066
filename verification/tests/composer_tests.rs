use bls12_381::Scalar;
use plonk_core::composer::StandardComposer;
use plonk_core::permutation::WireData;

#[test]
fn column_lengths_after_gates() {
    let mut c = StandardComposer::new();
    let one = Scalar::one();
    let zero = Scalar::zero();
    let a = c.add_input(Scalar::from(2u64));
    let b = c.add_input(Scalar::from(3u64));
    let o = c.add_input(Scalar::from(5u64));

    c.add_gate(a, b, o, one, one, -one, zero, None);
    c.big_add_gate(a, b, o, None, one, one, -one, zero, zero, None);
    c.mul_gate(a, b, o, one, -one, zero, None);
    c.big_mul_gate(a, b, o, None, one, -one, zero, zero, None);
    c.big_arith_gate(a, b, o, None, zero, one, one, -one, zero, zero, None);
    c.add((one, a), (one, b), zero, None);
    c.big_add((one, a), (one, b), None, zero, None);
    c.mul(one, a, b, zero, None);
    c.big_mul(one, a, b, None, zero, None);
    c.big_arith(one, a, b, zero, zero, None, zero, None);

    let k = 10;
    assert_eq!(c.n, k);
    assert_eq!(c.q_m.len(), k);
    assert_eq!(c.q_l.len(), k);
    assert_eq!(c.q_r.len(), k);
    assert_eq!(c.q_o.len(), k);
    assert_eq!(c.q_c.len(), k);
    assert_eq!(c.q_4.len(), k);
    assert_eq!(c.q_arith.len(), k);
    assert_eq!(c.q_range.len(), k);
    assert_eq!(c.q_logic.len(), k);
    assert_eq!(c.q_fixed_group_add.len(), k);
    assert_eq!(c.q_variable_group_add.len(), k);
    assert_eq!(c.w_l.len(), k);
    assert_eq!(c.w_r.len(), k);
    assert_eq!(c.w_o.len(), k);
    assert_eq!(c.w_4.len(), k);
    assert_eq!(c.public_inputs.len(), k);
}

#[test]
fn correct_add_mul_gate() {
    // (4+5+5) * (6+7+7) = 280
    let mut c = StandardComposer::new();
    let one = Scalar::one();
    let zero = Scalar::zero();
    let four = c.add_input(Scalar::from(4u64));
    let five = c.add_input(Scalar::from(5u64));
    let six = c.add_input(Scalar::from(6u64));
    let seven = c.add_input(Scalar::from(7u64));

    let fourteen = c.big_add((one, four), (one, five), Some((one, five)), zero, None);
    let twenty = c.big_add((one, six), (one, seven), Some((one, seven)), zero, None);
    let output = c.mul(one, fourteen, twenty, zero, None);
    c.constrain_to_constant(output, Scalar::from(280u64), None);
    assert_eq!(c.variables[output.0], Scalar::from(280u64));
    assert!(c.circuit_satisfied());
}

#[test]
fn incorrect_add_mul_gate() {
    // (5+5) * (6+7) = 130, constraining it to 117 must fail
    let mut c = StandardComposer::new();
    let one = Scalar::one();
    let zero = Scalar::zero();
    let five = c.add_input(Scalar::from(5u64));
    let six = c.add_input(Scalar::from(6u64));
    let seven = c.add_input(Scalar::from(7u64));

    let five_plus_five = c.big_add((one, five), (one, five), None, zero, None);
    let six_plus_seven = c.big_add((one, six), (one, seven), None, zero, None);
    let output = c.mul(one, five_plus_five, six_plus_seven, zero, None);
    c.constrain_to_constant(output, Scalar::from(117u64), None);
    assert!(!c.circuit_satisfied());
}

#[test]
fn correct_big_arith_gate() {
    // (4*5)*6 + 4*7 + 5*8 + 9*10 + 11 = 289
    let mut c = StandardComposer::new();
    let a = c.add_input(Scalar::from(4u64));
    let b = c.add_input(Scalar::from(5u64));
    let q_m = Scalar::from(6u64);
    let q_l = Scalar::from(7u64);
    let q_r = Scalar::from(8u64);
    let d = c.add_input(Scalar::from(9u64));
    let q_4 = Scalar::from(10u64);
    let q_c = Scalar::from(11u64);

    let output = c.big_arith(q_m, a, b, q_l, q_r, Some((q_4, d)), q_c, None);
    c.constrain_to_constant(output, Scalar::from(289u64), None);
    assert_eq!(c.variables[output.0], Scalar::from(289u64));
    assert!(c.circuit_satisfied());
}

#[test]
fn incorrect_big_arith_gate() {
    // (4*5)*6 + 4*7 + 5*8 + 9*12 + 11 = 307, constraining to 289 must fail
    let mut c = StandardComposer::new();
    let a = c.add_input(Scalar::from(4u64));
    let b = c.add_input(Scalar::from(5u64));
    let q_m = Scalar::from(6u64);
    let q_l = Scalar::from(7u64);
    let q_r = Scalar::from(8u64);
    let d = c.add_input(Scalar::from(9u64));
    let q_4 = Scalar::from(12u64);
    let q_c = Scalar::from(11u64);

    let output = c.big_arith(q_m, a, b, q_l, q_r, Some((q_4, d)), q_c, None);
    assert_ne!(c.variables[output.0], Scalar::from(289u64));
    c.constrain_to_constant(output, Scalar::from(289u64), None);
    assert!(!c.circuit_satisfied());
}

#[test]
fn public_inputs_enter_the_gate_equation() {
    let mut c = StandardComposer::new();
    let one = Scalar::one();
    let zero = Scalar::zero();
    let var_one = c.add_input(one);
    let should_be_three = c.big_add(
        (one, var_one),
        (one, var_one),
        None,
        zero,
        Some(Scalar::one()),
    );
    c.constrain_to_constant(should_be_three, Scalar::from(3u64), None);
    assert!(c.circuit_satisfied());
}

#[test]
fn sigma_three_cycle_and_fixed_point() {
    let mut c = StandardComposer::new();
    let one = Scalar::one();
    let zero = Scalar::zero();
    let a = c.add_input(Scalar::from(2u64));
    let b = c.add_input(Scalar::from(3u64));
    let d = c.add_input(Scalar::from(4u64));
    // row 0: a on left and right, b on output
    c.big_add_gate(a, a, b, None, one, one, -one, zero, zero, None);
    // row 1: a on left, b on right, b on output
    c.big_add_gate(a, b, b, None, one, zero, -one, zero, zero, None);
    // row 2: d used exactly once, on the left wire
    c.big_add_gate(d, b, b, None, zero, zero, zero, zero, zero, None);

    let sm = c.perm.compute_sigma_mappings(c.n);
    // a occurs at Left(0), Right(0), Left(1): a three-cycle
    assert_eq!(sm.left[0], WireData::Right(0));
    assert_eq!(sm.right[0], WireData::Left(1));
    assert_eq!(sm.left[1], WireData::Left(0));
    // d occurs only at Left(2): a fixed point
    assert_eq!(sm.left[2], WireData::Left(2));
}
