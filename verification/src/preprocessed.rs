//! The immutable, circuit-shape-only bundle a prover reuses across
//! proofs: the widgets' selector polynomials in coefficient and
//! coset-evaluation form, the four sigma polynomials, and the cached
//! vanishing-polynomial evaluations over the extended coset.
use vstd::prelude::*;
use bls12_381::Scalar;
use crate::composer::{seq_vals, StandardComposer};
use crate::domain::EvaluationDomain;
use crate::field::{fmul, fpow, fsub, idft_coeff, r_order};
use crate::permutation::{
    lemma_occurs_wf_monotone, lemma_sigma_rows_bounded, occ_view, sigma_correct, SigmaMappings,
    WireData,
};
use crate::quotient::{coset_evals, k1, k2, k3};
use crate::scalar::{s_clone, s_from_u64, s_mul, s_zero, scalar_v};
use crate::srs::powers_of;

verus! {

/// The four sigma polynomials of the copy-constraint argument, in
/// coefficient form.
pub struct PermutationKey {
    pub left_sigma: Vec<Scalar>,
    pub right_sigma: Vec<Scalar>,
    pub out_sigma: Vec<Scalar>,
    pub fourth_sigma: Vec<Scalar>,
}

/// Everything the quotient assembler reads about one circuit shape.
pub struct PreProcessedCircuit {
    /// The base-domain size the circuit was padded to.
    pub n: usize,
    pub arithmetic: crate::widget::arithmetic::ProverKey,
    pub logic: crate::widget::logic::ProverKey,
    pub permutation: PermutationKey,
    /// The vanishing polynomial of the base domain, evaluated over the
    /// extended coset.
    pub v_h_coset_4n: Vec<Scalar>,
}

impl PreProcessedCircuit {
    /// The cached vanishing evaluations.
    pub fn v_h_coset_4n(&self) -> (r: &Vec<Scalar>)
        ensures
            r@ == self.v_h_coset_4n@,
    {
        &self.v_h_coset_4n
    }
}

/// A column padded with zeros to the domain size.
pub open spec fn padded(s: Seq<nat>, size: nat) -> Seq<nat> {
    Seq::new(
        size,
        |i: int|
            if i < s.len() {
                s[i]
            } else {
                0nat
            },
    )
}

/// The coefficients interpolating an evaluation vector over the plain
/// domain: the inverse transform, coefficient by coefficient.
pub open spec fn idft_seq(evals: Seq<nat>, w_inv: nat, n_inv: nat) -> Seq<nat> {
    Seq::new(evals.len(), |j: int| idft_coeff(evals, w_inv, n_inv, j))
}

/// The permutation label of a wire position: the domain element of its
/// row, shifted by its column's fixed constant.
pub open spec fn label_of(w: WireData, omega: nat) -> nat {
    match w {
        WireData::Left(r) => fpow(omega, r as nat),
        WireData::Right(r) => fmul(k1(), fpow(omega, r as nat)),
        WireData::Output(r) => fmul(k2(), fpow(omega, r as nat)),
        WireData::Fourth(r) => fmul(k3(), fpow(omega, r as nat)),
    }
}

/// The labels of a whole sigma column.
pub open spec fn labels_seq(col: Seq<WireData>, omega: nat) -> Seq<nat> {
    Seq::new(col.len(), |i: int| label_of(col[i], omega))
}

/// The four sigma polynomials interpolate the labels of a correct sigma
/// mapping of the given occurrence data.
pub open spec fn sigma_polys_from(
    pk: PermutationKey,
    m: Seq<Seq<WireData>>,
    domain: EvaluationDomain,
    sm: SigmaMappings,
) -> bool {
    &&& sigma_correct(m, sm, domain.size as int)
    &&& seq_vals(pk.left_sigma@) == idft_seq(
        labels_seq(sm.left@, scalar_v(domain.group_gen)),
        scalar_v(domain.group_gen_inv),
        scalar_v(domain.size_inv),
    )
    &&& seq_vals(pk.right_sigma@) == idft_seq(
        labels_seq(sm.right@, scalar_v(domain.group_gen)),
        scalar_v(domain.group_gen_inv),
        scalar_v(domain.size_inv),
    )
    &&& seq_vals(pk.out_sigma@) == idft_seq(
        labels_seq(sm.output@, scalar_v(domain.group_gen)),
        scalar_v(domain.group_gen_inv),
        scalar_v(domain.size_inv),
    )
    &&& seq_vals(pk.fourth_sigma@) == idft_seq(
        labels_seq(sm.fourth@, scalar_v(domain.group_gen)),
        scalar_v(domain.group_gen_inv),
        scalar_v(domain.size_inv),
    )
}

/// One selector pair was built from its composer column: the coefficient
/// form interpolates the zero-padded column over the base domain, and the
/// evaluation form is its coset transform over the extended domain.
pub open spec fn selector_processed(
    pair: (Vec<Scalar>, Vec<Scalar>),
    col: Seq<Scalar>,
    domain: EvaluationDomain,
    d4: EvaluationDomain,
) -> bool {
    &&& seq_vals(pair.0@) == idft_seq(
        padded(seq_vals(col), domain.size as nat),
        scalar_v(domain.group_gen_inv),
        scalar_v(domain.size_inv),
    )
    &&& seq_vals(pair.1@) == coset_evals(d4, seq_vals(pair.0@))
}

/// What preprocessing promises: every selector pair comes from its
/// column, the sigma polynomials interpolate the labels of a correct
/// sigma mapping of the composer's occurrence data, and the vanishing
/// evaluations are cached for the extended coset.
pub open spec fn preprocess_post(
    r: PreProcessedCircuit,
    c: StandardComposer,
    domain: EvaluationDomain,
    d4: EvaluationDomain,
) -> bool {
    &&& r.n == domain.size
    &&& selector_processed(r.arithmetic.q_m, c.q_m@, domain, d4)
    &&& selector_processed(r.arithmetic.q_l, c.q_l@, domain, d4)
    &&& selector_processed(r.arithmetic.q_r, c.q_r@, domain, d4)
    &&& selector_processed(r.arithmetic.q_o, c.q_o@, domain, d4)
    &&& selector_processed(r.arithmetic.q_c, c.q_c@, domain, d4)
    &&& selector_processed(r.arithmetic.q_4, c.q_4@, domain, d4)
    &&& selector_processed(r.arithmetic.q_arith, c.q_arith@, domain, d4)
    &&& selector_processed(r.logic.q_c, c.q_c@, domain, d4)
    &&& selector_processed(r.logic.q_logic, c.q_logic@, domain, d4)
    &&& (exists|sm: SigmaMappings|
        sigma_polys_from(r.permutation, occ_view(c.perm.variable_map), domain, sm))
    &&& r.v_h_coset_4n@.len() == d4.size
    &&& forall|i: int|
        0 <= i < d4.size ==> scalar_v(#[trigger] r.v_h_coset_4n@[i]) == fsub(
            fpow(d4.coset_point(i), domain.size as nat),
            1,
        )
}

/// Clones a column and pads it with zeros to the domain size.
fn pad_column(col: &Vec<Scalar>, size: usize) -> (r: Vec<Scalar>)
    requires
        col@.len() <= size,
    ensures
        r@.len() == size,
        seq_vals(r@) == padded(seq_vals(col@), size as nat),
{
    let mut out: Vec<Scalar> = Vec::new();
    let mut i: usize = 0;
    while i < col.len()
        invariant
            i <= col@.len(),
            out@.len() == i,
            forall|k: int| 0 <= k < i ==> scalar_v(out@[k]) == scalar_v(col@[k]),
        decreases col@.len() - i,
    {
        out.push(s_clone(&col[i]));
        i = i + 1;
    }
    while i < size
        invariant
            col@.len() <= i <= size,
            out@.len() == i,
            forall|k: int| 0 <= k < col@.len() ==> scalar_v(out@[k]) == scalar_v(col@[k]),
            forall|k: int| col@.len() <= k < i ==> scalar_v(out@[k]) == 0,
        decreases size - i,
    {
        out.push(s_zero());
        i = i + 1;
    }
    proof {
        assert(seq_vals(out@) =~= padded(seq_vals(col@), size as nat));
    }
    out
}

/// Interpolates an evaluation vector over the base domain.
fn interpolate(domain: &EvaluationDomain, evals: &Vec<Scalar>) -> (r: Vec<Scalar>)
    requires
        domain.wf(),
        evals@.len() == domain.size,
    ensures
        r@.len() == domain.size,
        seq_vals(r@) == idft_seq(
            seq_vals(evals@),
            scalar_v(domain.group_gen_inv),
            scalar_v(domain.size_inv),
        ),
{
    let out = domain.ifft(evals);
    proof {
        assert(seq_vals(out@) =~= idft_seq(
            seq_vals(evals@),
            scalar_v(domain.group_gen_inv),
            scalar_v(domain.size_inv),
        ));
    }
    out
}

/// Builds one selector pair: pad, interpolate, coset-transform.
fn selector_pair(
    domain: &EvaluationDomain,
    domain_4n: &EvaluationDomain,
    col: &Vec<Scalar>,
) -> (r: (Vec<Scalar>, Vec<Scalar>))
    requires
        domain.wf(),
        domain_4n.wf(),
        col@.len() <= domain.size,
    ensures
        selector_processed(r, col@, *domain, *domain_4n),
        r.0@.len() == domain.size,
        r.1@.len() == domain_4n.size,
{
    let padded_col = pad_column(col, domain.size);
    let coeffs = interpolate(domain, &padded_col);
    let evals = domain_4n.coset_fft(&coeffs);
    proof {
        assert(seq_vals(evals@) =~= coset_evals(*domain_4n, seq_vals(coeffs@))) by {
            reveal(coset_evals);
        }
    }
    (coeffs, evals)
}

/// Evaluates the labels of one sigma column at the domain's points.
pub fn label_evals(col: &Vec<WireData>, omega_pows: &Vec<Scalar>) -> (r: Vec<Scalar>)
    requires
        forall|i: int|
            0 <= i < col@.len() ==> 0 <= crate::permutation::wire_row(#[trigger] col@[i])
                < omega_pows@.len(),
    ensures
        r@.len() == col@.len(),
        forall|i: int|
            0 <= i < col@.len() ==> scalar_v(#[trigger] r@[i]) == (match col@[i] {
                WireData::Left(row) => scalar_v(omega_pows@[row as int]),
                WireData::Right(row) => fmul(k1(), scalar_v(omega_pows@[row as int])),
                WireData::Output(row) => fmul(k2(), scalar_v(omega_pows@[row as int])),
                WireData::Fourth(row) => fmul(k3(), scalar_v(omega_pows@[row as int])),
            }),
{
    let k1s = s_from_u64(7);
    let k2s = s_from_u64(13);
    let k3s = s_from_u64(17);
    proof {
        vstd::arithmetic::div_mod::lemma_small_mod(7, r_order());
        vstd::arithmetic::div_mod::lemma_small_mod(13, r_order());
        vstd::arithmetic::div_mod::lemma_small_mod(17, r_order());
    }
    let mut out: Vec<Scalar> = Vec::new();
    let mut i: usize = 0;
    while i < col.len()
        invariant
            i <= col@.len(),
            out@.len() == i,
            scalar_v(k1s) == k1(),
            scalar_v(k2s) == k2(),
            scalar_v(k3s) == k3(),
            forall|k: int|
                0 <= k < col@.len() ==> 0 <= crate::permutation::wire_row(#[trigger] col@[k])
                    < omega_pows@.len(),
            forall|k: int|
                0 <= k < i ==> scalar_v(#[trigger] out@[k]) == (match col@[k] {
                    WireData::Left(row) => scalar_v(omega_pows@[row as int]),
                    WireData::Right(row) => fmul(k1(), scalar_v(omega_pows@[row as int])),
                    WireData::Output(row) => fmul(k2(), scalar_v(omega_pows@[row as int])),
                    WireData::Fourth(row) => fmul(k3(), scalar_v(omega_pows@[row as int])),
                }),
        decreases col@.len() - i,
    {
        let w = col[i];
        let lab = match w {
            WireData::Left(row) => s_clone(&omega_pows[row]),
            WireData::Right(row) => s_mul(&k1s, &omega_pows[row]),
            WireData::Output(row) => s_mul(&k2s, &omega_pows[row]),
            WireData::Fourth(row) => s_mul(&k3s, &omega_pows[row]),
        };
        out.push(lab);
        i = i + 1;
    }
    out
}

/// Consumes a finished composer and builds the immutable circuit bundle:
/// every selector interpolated and coset-transformed, the sigma
/// polynomials derived from the recorded wire occurrences, and the
/// vanishing evaluations cached.
#[verifier::rlimit(100)]
#[verifier::loop_isolation(false)]
pub fn preprocess(
    composer: &StandardComposer,
    domain: &EvaluationDomain,
    domain_4n: &EvaluationDomain,
) -> (r: PreProcessedCircuit)
    requires
        composer.wf(),
        domain.wf(),
        domain_4n.wf(),
        composer.n <= domain.size,
        domain.size < usize::MAX,
    ensures
        preprocess_post(r, *composer, *domain, *domain_4n),
{
    let q_m = selector_pair(domain, domain_4n, &composer.q_m);
    let q_l = selector_pair(domain, domain_4n, &composer.q_l);
    let q_r = selector_pair(domain, domain_4n, &composer.q_r);
    let q_o = selector_pair(domain, domain_4n, &composer.q_o);
    let q_c = selector_pair(domain, domain_4n, &composer.q_c);
    let q_4 = selector_pair(domain, domain_4n, &composer.q_4);
    let q_arith = selector_pair(domain, domain_4n, &composer.q_arith);
    let q_c_logic = selector_pair(domain, domain_4n, &composer.q_c);
    let q_logic = selector_pair(domain, domain_4n, &composer.q_logic);
    proof {
        lemma_occurs_wf_monotone(
            occ_view(composer.perm.variable_map),
            composer.n as int,
            domain.size as int,
        );
    }
    let sm = composer.perm.compute_sigma_mappings(domain.size);
    proof {
        lemma_sigma_rows_bounded(
            occ_view(composer.perm.variable_map),
            sm,
            domain.size as int,
        );
        assert forall|i: int|
            0 <= i < sm.left@.len() implies 0 <= crate::permutation::wire_row(
            #[trigger] sm.left@[i],
        ) < domain.size as int by {
            assert(sm.left@[i] == crate::permutation::sigma_at(sm, WireData::Left(i as usize)));
        }
        assert forall|i: int|
            0 <= i < sm.right@.len() implies 0 <= crate::permutation::wire_row(
            #[trigger] sm.right@[i],
        ) < domain.size as int by {
            assert(sm.right@[i] == crate::permutation::sigma_at(sm, WireData::Right(i as usize)));
        }
        assert forall|i: int|
            0 <= i < sm.output@.len() implies 0 <= crate::permutation::wire_row(
            #[trigger] sm.output@[i],
        ) < domain.size as int by {
            assert(sm.output@[i] == crate::permutation::sigma_at(sm, WireData::Output(i as usize)));
        }
        assert forall|i: int|
            0 <= i < sm.fourth@.len() implies 0 <= crate::permutation::wire_row(
            #[trigger] sm.fourth@[i],
        ) < domain.size as int by {
            assert(sm.fourth@[i] == crate::permutation::sigma_at(sm, WireData::Fourth(i as usize)));
        }
    }
    let omega_pows = powers_of(&domain.group_gen, domain.size - 1);
    let left_lab = label_evals(&sm.left, &omega_pows);
    let right_lab = label_evals(&sm.right, &omega_pows);
    let out_lab = label_evals(&sm.output, &omega_pows);
    let fourth_lab = label_evals(&sm.fourth, &omega_pows);
    proof {
        assert(seq_vals(left_lab@) =~= labels_seq(sm.left@, scalar_v(domain.group_gen)));
        assert(seq_vals(right_lab@) =~= labels_seq(sm.right@, scalar_v(domain.group_gen)));
        assert(seq_vals(out_lab@) =~= labels_seq(sm.output@, scalar_v(domain.group_gen)));
        assert(seq_vals(fourth_lab@) =~= labels_seq(sm.fourth@, scalar_v(domain.group_gen)));
    }
    let left_sigma = interpolate(domain, &left_lab);
    let right_sigma = interpolate(domain, &right_lab);
    let out_sigma = interpolate(domain, &out_lab);
    let fourth_sigma = interpolate(domain, &fourth_lab);
    let v_h_coset_4n = domain_4n.compute_vanishing_poly_over_coset(domain.size as u64);
    let result = PreProcessedCircuit {
        n: domain.size,
        arithmetic: crate::widget::arithmetic::ProverKey {
            q_m,
            q_l,
            q_r,
            q_o,
            q_c,
            q_4,
            q_arith,
        },
        logic: crate::widget::logic::ProverKey { q_c: q_c_logic, q_logic },
        permutation: PermutationKey { left_sigma, right_sigma, out_sigma, fourth_sigma },
        v_h_coset_4n,
    };
    proof {
        assert(sigma_polys_from(
            result.permutation,
            occ_view(composer.perm.variable_map),
            *domain,
            sm,
        ));
    }
    result
}

} // verus!
