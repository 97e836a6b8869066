use bls12_381::Scalar;
use plonk_core::composer::StandardComposer;
use plonk_core::domain::EvaluationDomain;
use plonk_core::error::Error;
use plonk_core::grand_product::compute_grand_product_evals;
use plonk_core::preprocessed::{label_evals, preprocess};
use plonk_core::quotient::compute;
use plonk_core::srs::powers_of;
use plonk_core::widget::logic::{delta, delta_xor_and};

#[test]
fn domain_sizes_are_validated() {
    assert!(matches!(
        EvaluationDomain::new(0),
        Err(Error::InvalidEvalDomainSize)
    ));
    assert!(matches!(
        EvaluationDomain::new(3),
        Err(Error::InvalidEvalDomainSize)
    ));
    let d = EvaluationDomain::new(4).unwrap();
    assert_eq!(d.size, 4);
    // a power of two beyond the scalar field's two-adicity has no
    // matching root of unity
    assert!(matches!(
        EvaluationDomain::new(1usize << 33),
        Err(Error::InvalidEvalDomainSize)
    ));
}

#[test]
fn coset_transform_round_trip() {
    let d = EvaluationDomain::new(4).unwrap();
    let coeffs = vec![
        Scalar::from(1u64),
        Scalar::from(2u64),
        Scalar::from(3u64),
        Scalar::from(4u64),
    ];
    let evals = d.coset_fft(&coeffs);
    let back = d.coset_ifft(&evals);
    assert_eq!(back, coeffs);
}

#[test]
fn delta_vanishes_exactly_on_base4_digits() {
    for v in 0u64..4 {
        assert_eq!(delta(&Scalar::from(v)), Scalar::zero());
    }
    assert_eq!(delta(&Scalar::from(4u64)), Scalar::from(24u64));
}

#[test]
fn delta_xor_and_selects_the_relation() {
    let one = Scalar::one();
    for a in 0u64..4 {
        for b in 0u64..4 {
            let w = Scalar::from(a * b);
            let and_out = Scalar::from(a & b);
            let xor_out = Scalar::from(a ^ b);
            assert_eq!(
                delta_xor_and(&Scalar::from(a), &Scalar::from(b), &w, &and_out, &one),
                Scalar::zero()
            );
            assert_eq!(
                delta_xor_and(&Scalar::from(a), &Scalar::from(b), &w, &xor_out, &(-one)),
                Scalar::zero()
            );
        }
    }
    // a wrong output digit is rejected
    let w = Scalar::from(6u64);
    let wrong = Scalar::from(3u64);
    assert_ne!(
        delta_xor_and(
            &Scalar::from(2u64),
            &Scalar::from(3u64),
            &w,
            &wrong,
            &one
        ),
        Scalar::zero()
    );
}

#[test]
fn grand_product_is_constant_on_identity_wiring() {
    let d = EvaluationDomain::new(2).unwrap();
    let omega_pows = powers_of(&d.group_gen, 1);
    // sigma labels equal to the identity labels make every ratio one
    let sl: Vec<Scalar> = omega_pows.clone();
    let sr: Vec<Scalar> = omega_pows.iter().map(|x| Scalar::from(7u64) * x).collect();
    let so: Vec<Scalar> = omega_pows.iter().map(|x| Scalar::from(13u64) * x).collect();
    let s4: Vec<Scalar> = omega_pows.iter().map(|x| Scalar::from(17u64) * x).collect();
    let wl = vec![Scalar::from(5u64), Scalar::from(6u64)];
    let wr = vec![Scalar::from(7u64), Scalar::from(8u64)];
    let wo = vec![Scalar::from(9u64), Scalar::from(10u64)];
    let w4 = vec![Scalar::from(11u64), Scalar::from(12u64)];
    let beta = Scalar::from(21u64);
    let gamma = Scalar::from(33u64);
    let z = compute_grand_product_evals(&d, &wl, &wr, &wo, &w4, &sl, &sr, &so, &s4, &beta, &gamma)
        .unwrap();
    assert_eq!(z.len(), 2);
    assert_eq!(z[0], Scalar::one());
    assert_eq!(z[1], Scalar::one());
}

#[test]
fn grand_product_zero_denominator_is_fatal() {
    let d = EvaluationDomain::new(2).unwrap();
    let zeros = vec![Scalar::zero(), Scalar::zero()];
    let res = compute_grand_product_evals(
        &d,
        &zeros,
        &zeros,
        &zeros,
        &zeros,
        &zeros,
        &zeros,
        &zeros,
        &zeros,
        &Scalar::zero(),
        &Scalar::zero(),
    );
    assert!(matches!(res, Err(Error::UninvertibleValue)));
}

fn satisfied_circuit() -> StandardComposer {
    // (4+5+5) * (6+7+7) = 280, constrained to 280: four gate rows
    let mut c = StandardComposer::new();
    let one = Scalar::one();
    let zero = Scalar::zero();
    let four = c.add_input(Scalar::from(4u64));
    let five = c.add_input(Scalar::from(5u64));
    let six = c.add_input(Scalar::from(6u64));
    let seven = c.add_input(Scalar::from(7u64));
    let fourteen = c.big_add((one, four), (one, five), Some((one, five)), zero, None);
    let twenty = c.big_add((one, six), (one, seven), Some((one, seven)), zero, None);
    let output = c.mul(one, fourteen, twenty, zero, None);
    c.constrain_to_constant(output, Scalar::from(280u64), None);
    c
}

#[test]
fn quotient_round_trip_reconstructs_numerator() {
    let c = satisfied_circuit();
    assert!(c.circuit_satisfied());
    let n = 4usize;
    assert_eq!(c.n, n);
    let domain = EvaluationDomain::new(n).unwrap();
    let domain_4n = EvaluationDomain::new(4 * n).unwrap();
    let pre = preprocess(&c, &domain, &domain_4n);

    // witness and public-input columns as evaluation vectors over the rows
    let wl_vals: Vec<Scalar> = c.w_l.iter().map(|v| c.variables[v.0]).collect();
    let wr_vals: Vec<Scalar> = c.w_r.iter().map(|v| c.variables[v.0]).collect();
    let wo_vals: Vec<Scalar> = c.w_o.iter().map(|v| c.variables[v.0]).collect();
    let w4_vals: Vec<Scalar> = c.w_4.iter().map(|v| c.variables[v.0]).collect();
    let pi_vals: Vec<Scalar> = c
        .public_inputs
        .iter()
        .map(|p| p.unwrap_or(Scalar::zero()))
        .collect();

    // grand product from the sigma labels of the real wiring
    let sm = c.perm.compute_sigma_mappings(n);
    let omega_pows = powers_of(&domain.group_gen, n - 1);
    let sl = label_evals(&sm.left, &omega_pows);
    let sr = label_evals(&sm.right, &omega_pows);
    let so = label_evals(&sm.output, &omega_pows);
    let s4 = label_evals(&sm.fourth, &omega_pows);
    let beta = Scalar::from(21u64);
    let gamma = Scalar::from(33u64);
    let z_vals = compute_grand_product_evals(
        &domain, &wl_vals, &wr_vals, &wo_vals, &w4_vals, &sl, &sr, &so, &s4, &beta, &gamma,
    )
    .unwrap();

    let wl_poly = domain.ifft(&wl_vals);
    let wr_poly = domain.ifft(&wr_vals);
    let wo_poly = domain.ifft(&wo_vals);
    let w4_poly = domain.ifft(&w4_vals);
    let pi_poly = domain.ifft(&pi_vals);
    let z_poly = domain.ifft(&z_vals);

    let alpha = Scalar::from(47u64);
    let sep = Scalar::from(59u64);
    let t = compute(
        &domain, &domain_4n, &pre, &z_poly, &wl_poly, &wr_poly, &wo_poly, &w4_poly, &pi_poly,
        &alpha, &beta, &gamma, &sep,
    )
    .unwrap();
    assert_eq!(t.len(), 4 * n);

    // re-evaluate the quotient over the extended coset and multiply back
    // by the vanishing values: this must reconstruct the combined
    // numerator at every row
    let t_evals = domain_4n.coset_fft(&t);
    let push4 = |mut v: Vec<Scalar>| {
        for k in 0..4 {
            let e = v[k];
            v.push(e);
        }
        v
    };
    let wl_e = push4(domain_4n.coset_fft(&wl_poly));
    let wr_e = push4(domain_4n.coset_fft(&wr_poly));
    let wo_e = domain_4n.coset_fft(&wo_poly);
    let w4_e = push4(domain_4n.coset_fft(&w4_poly));
    let pi_e = domain_4n.coset_fft(&pi_poly);
    let z_e = push4(domain_4n.coset_fft(&z_poly));
    let sl_e = domain_4n.coset_fft(&pre.permutation.left_sigma);
    let sr_e = domain_4n.coset_fft(&pre.permutation.right_sigma);
    let so_e = domain_4n.coset_fft(&pre.permutation.out_sigma);
    let s4_e = domain_4n.coset_fft(&pre.permutation.fourth_sigma);
    let n_inv = Scalar::from(n as u64).invert().unwrap();
    let l1_coeffs = vec![n_inv; n];
    let l1_e = domain_4n.coset_fft(&l1_coeffs);

    let k1 = Scalar::from(7u64);
    let k2 = Scalar::from(13u64);
    let k3 = Scalar::from(17u64);
    let mut x = Scalar::from(7u64);
    for i in 0..(4 * n) {
        let gate = pre
            .arithmetic
            .compute_quotient_i(i, &wl_e[i], &wr_e[i], &wo_e[i], &w4_e[i])
            + pre.logic.compute_quotient_i(
                i,
                &sep,
                &wl_e[i],
                &wl_e[i + 4],
                &wr_e[i],
                &wr_e[i + 4],
                &wo_e[i],
                &w4_e[i],
                &w4_e[i + 4],
            )
            + pi_e[i];
        let ident = z_e[i]
            * (wl_e[i] + beta * x + gamma)
            * (wr_e[i] + beta * k1 * x + gamma)
            * (wo_e[i] + beta * k2 * x + gamma)
            * (w4_e[i] + beta * k3 * x + gamma)
            * alpha;
        let copy = z_e[i + 4]
            * (wl_e[i] + beta * sl_e[i] + gamma)
            * (wr_e[i] + beta * sr_e[i] + gamma)
            * (wo_e[i] + beta * so_e[i] + gamma)
            * (w4_e[i] + beta * s4_e[i] + gamma)
            * alpha;
        let bound = (z_e[i] - Scalar::one()) * l1_e[i] * alpha * alpha;
        let numer = gate + (ident - copy) + bound;
        assert_eq!(t_evals[i] * pre.v_h_coset_4n[i], numer);
        x *= domain_4n.group_gen;
    }
}

#[test]
fn unsatisfied_circuit_is_detected() {
    // (5+5) * (6+7) = 130 constrained to 117: some row must violate its
    // gate equation
    let mut c = StandardComposer::new();
    let one = Scalar::one();
    let zero = Scalar::zero();
    let five = c.add_input(Scalar::from(5u64));
    let six = c.add_input(Scalar::from(6u64));
    let seven = c.add_input(Scalar::from(7u64));
    let five_plus_five = c.big_add((one, five), (one, five), None, zero, None);
    let six_plus_seven = c.big_add((one, six), (one, seven), None, zero, None);
    let output = c.mul(one, five_plus_five, six_plus_seven, zero, None);
    c.constrain_to_constant(output, Scalar::from(117u64), None);
    assert!(!c.circuit_satisfied());
    let mut some_row_violated = false;
    for i in 0..c.n {
        if c.gate_value_at(i) != Scalar::zero() {
            some_row_violated = true;
        }
    }
    assert!(some_row_violated);
}
