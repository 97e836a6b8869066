//! The quotient-polynomial assembler: combines every widget's and the
//! permutation argument's contributions over the extended coset domain,
//! divides by the vanishing polynomial there, and transforms back to
//! coefficient form.
use vstd::prelude::*;
use bls12_381::Scalar;
use crate::composer::seq_vals;
use crate::domain::EvaluationDomain;
use crate::error::Error;
use crate::field::{
    fadd, fmul, fpow, fsub, idft_coeff, lemma_fadd_bound, lemma_cancel_inverse, lemma_fmul_comm,
    poly_eval, r_order,
};
use crate::preprocessed::PreProcessedCircuit;
use crate::scalar::{s_add, s_clone, s_from_u64, s_invert, s_mul, s_one, s_sub, scalar_v};
use crate::domain::coset_gen_v;
use crate::widget::arithmetic::arith_quotient_term;
use crate::widget::logic::logic_quotient_term;

verus! {

/// The per-column label shifts of the permutation argument: the identity
/// labels of the four wire columns are `x`, `7x`, `13x` and `17x`.
pub open spec fn k1() -> nat {
    7nat
}

pub open spec fn k2() -> nat {
    13nat
}

pub open spec fn k3() -> nat {
    17nat
}

/// One wire's factor in the grand-product terms: `w + beta·label + gamma`.
pub open spec fn side_factor(w: nat, beta: nat, lbl: nat, gamma: nat) -> nat {
    fadd(fadd(w, fmul(beta, lbl)), gamma)
}

/// An evaluation vector extended by its own first four entries, so that
/// "the next base-domain row" is index `i + 4` without wrap-around.
pub open spec fn wrap4(s: Seq<nat>) -> Seq<nat> {
    s + s.subrange(0, 4)
}

/// The evaluations of a coefficient vector over a domain's coset.
#[verifier::opaque]
pub open spec fn coset_evals(d: EvaluationDomain, p: Seq<nat>) -> Seq<nat> {
    Seq::new(d.size as nat, |i: int| poly_eval(p, d.coset_point(i)))
}

/// The satisfiability numerator at row `i` of the extended domain:
/// the arithmetic widget's term, the logic widget's term, and the public
/// input there.
#[verifier::opaque]
pub open spec fn gate_numerator_at(
    arith: crate::widget::arithmetic::ProverKey,
    logic: crate::widget::logic::ProverKey,
    sep: nat,
    wl: Seq<nat>,
    wr: Seq<nat>,
    wo: Seq<nat>,
    w4: Seq<nat>,
    pi: Seq<nat>,
    i: int,
) -> nat {
    fadd(
        fadd(
            arith_quotient_term(
                scalar_v(arith.q_arith.1@[i]),
                scalar_v(arith.q_m.1@[i]),
                scalar_v(arith.q_l.1@[i]),
                scalar_v(arith.q_r.1@[i]),
                scalar_v(arith.q_o.1@[i]),
                scalar_v(arith.q_4.1@[i]),
                scalar_v(arith.q_c.1@[i]),
                wl[i],
                wr[i],
                wo[i],
                w4[i],
            ),
            logic_quotient_term(
                scalar_v(logic.q_logic.1@[i]),
                sep,
                scalar_v(logic.q_c.1@[i]),
                wl[i],
                wl[i + 4],
                wr[i],
                wr[i + 4],
                wo[i],
                w4[i],
                w4[i + 4],
            ),
        ),
        pi[i],
    )
}

/// The permutation argument's numerator at row `i`: the identity term
/// minus the copy term, plus the boundary term that pins the
/// grand product to one at the first base-domain point.
#[verifier::opaque]
pub open spec fn perm_numerator_at(
    d4: EvaluationDomain,
    alpha: nat,
    beta: nat,
    gamma: nat,
    wl: Seq<nat>,
    wr: Seq<nat>,
    wo: Seq<nat>,
    w4: Seq<nat>,
    z: Seq<nat>,
    sl: Seq<nat>,
    sr: Seq<nat>,
    so: Seq<nat>,
    s4: Seq<nat>,
    l1: Seq<nat>,
    i: int,
) -> nat {
    let x = d4.coset_point(i);
    let ident = fmul(
        fmul(
            fmul(
                fmul(
                    fmul(z[i], side_factor(wl[i], beta, x, gamma)),
                    side_factor(wr[i], beta, fmul(k1(), x), gamma),
                ),
                side_factor(wo[i], beta, fmul(k2(), x), gamma),
            ),
            side_factor(w4[i], beta, fmul(k3(), x), gamma),
        ),
        alpha,
    );
    let copy = fmul(
        fmul(
            fmul(
                fmul(
                    fmul(z[i + 4], side_factor(wl[i], beta, sl[i], gamma)),
                    side_factor(wr[i], beta, sr[i], gamma),
                ),
                side_factor(wo[i], beta, so[i], gamma),
            ),
            side_factor(w4[i], beta, s4[i], gamma),
        ),
        alpha,
    );
    let bound = fmul(fmul(fsub(z[i], 1), l1[i]), fmul(alpha, alpha));
    fadd(fsub(ident, copy), bound)
}

/// The full quotient numerator at each row of the extended domain.
#[verifier::opaque]
pub open spec fn numerator_seq(
    d4: EvaluationDomain,
    arith: crate::widget::arithmetic::ProverKey,
    logic: crate::widget::logic::ProverKey,
    alpha: nat,
    beta: nat,
    gamma: nat,
    sep: nat,
    wl: Seq<nat>,
    wr: Seq<nat>,
    wo: Seq<nat>,
    w4: Seq<nat>,
    pi: Seq<nat>,
    z: Seq<nat>,
    sl: Seq<nat>,
    sr: Seq<nat>,
    so: Seq<nat>,
    s4: Seq<nat>,
    l1: Seq<nat>,
) -> Seq<nat> {
    Seq::new(
        d4.size as nat,
        |i: int|
            fadd(
                gate_numerator_at(arith, logic, sep, wl, wr, wo, w4, pi, i),
                perm_numerator_at(d4, alpha, beta, gamma, wl, wr, wo, w4, z, sl, sr, so, s4, l1, i),
            ),
    )
}

/// The evaluation vector `q` divides the numerators exactly: multiplying
/// it back by the vanishing values reconstructs every numerator, and
/// `out_vals` is its inverse coset transform.
pub open spec fn is_quotient_of(
    q: Seq<nat>,
    out_vals: Seq<nat>,
    d4: EvaluationDomain,
    vh: Seq<nat>,
    numer: Seq<nat>,
) -> bool {
    &&& q.len() == d4.size
    &&& forall|i: int| 0 <= i < q.len() ==> fmul(q[i], vh[i]) == numer[i]
    &&& out_vals == Seq::new(
        d4.size as nat,
        |j: int|
            fmul(
                fpow(scalar_v(d4.coset_gen_inv), j as nat),
                idft_coeff(q, scalar_v(d4.group_gen_inv), scalar_v(d4.size_inv), j),
            ),
    )
}

/// Re-evaluating the assembled quotient on the extended domain and
/// multiplying back by the vanishing values reconstructs the unreduced
/// combined numerator at every row: the division loses nothing.
pub proof fn lemma_quotient_reconstructs_numerator(
    q: Seq<nat>,
    out_vals: Seq<nat>,
    d4: EvaluationDomain,
    vh: Seq<nat>,
    numer: Seq<nat>,
)
    requires
        is_quotient_of(q, out_vals, d4, vh, numer),
    ensures
        forall|i: int| 0 <= i < d4.size ==> fmul(q[i], vh[i]) == numer[i],
{
}

/// The all-`1/N` coefficient vector: the first Lagrange basis polynomial
/// of the size-N base domain.
pub open spec fn l1_coeffs_spec(d: EvaluationDomain) -> Seq<nat> {
    Seq::new(d.size as nat, |i: int| scalar_v(d.size_inv))
}

/// Extends an evaluation vector by copies of its own first four entries.
fn extend_wrap4(v: &mut Vec<Scalar>)
    requires
        old(v)@.len() >= 4,
    ensures
        final(v)@.len() == old(v)@.len() + 4,
        seq_vals(final(v)@) == wrap4(seq_vals(old(v)@)),
{
    let c0 = s_clone(&v[0]);
    let c1 = s_clone(&v[1]);
    let c2 = s_clone(&v[2]);
    let c3 = s_clone(&v[3]);
    v.push(c0);
    v.push(c1);
    v.push(c2);
    v.push(c3);
    proof {
        assert(seq_vals(v@) =~= wrap4(seq_vals(old(v)@)));
    }
}

/// The satisfiability numerator at one row, executable form.
#[verifier::rlimit(60)]
fn gate_term_at(
    arith: &crate::widget::arithmetic::ProverKey,
    logic: &crate::widget::logic::ProverKey,
    sep: &Scalar,
    i: usize,
    wl: &Vec<Scalar>,
    wr: &Vec<Scalar>,
    wo: &Vec<Scalar>,
    w4: &Vec<Scalar>,
    pi: &Vec<Scalar>,
) -> (r: Scalar)
    requires
        arith.evals_cover(i + 1),
        logic.evals_cover(i + 1),
        i + 4 <= usize::MAX,
        i + 4 < wl@.len(),
        i + 4 < wr@.len(),
        i < wo@.len(),
        i + 4 < w4@.len(),
        i < pi@.len(),
    ensures
        scalar_v(r) == gate_numerator_at(
            *arith,
            *logic,
            scalar_v(*sep),
            seq_vals(wl@),
            seq_vals(wr@),
            seq_vals(wo@),
            seq_vals(w4@),
            seq_vals(pi@),
            i as int,
        ),
{
    let a_term = arith.compute_quotient_i(i, &wl[i], &wr[i], &wo[i], &w4[i]);
    let l_term = logic.compute_quotient_i(
        i,
        sep,
        &wl[i],
        &wl[i + 4],
        &wr[i],
        &wr[i + 4],
        &wo[i],
        &w4[i],
        &w4[i + 4],
    );
    let r = s_add(&s_add(&a_term, &l_term), &pi[i]);
    proof {
        reveal(gate_numerator_at);
    }
    r
}

/// The permutation argument's numerator at one row, executable form.
#[verifier::rlimit(60)]
fn perm_term_at(
    domain_4n: &EvaluationDomain,
    i: usize,
    x: &Scalar,
    alpha: &Scalar,
    beta: &Scalar,
    gamma: &Scalar,
    wl: &Vec<Scalar>,
    wr: &Vec<Scalar>,
    wo: &Vec<Scalar>,
    w4: &Vec<Scalar>,
    z: &Vec<Scalar>,
    sl: &Vec<Scalar>,
    sr: &Vec<Scalar>,
    so: &Vec<Scalar>,
    s4: &Vec<Scalar>,
    l1: &Vec<Scalar>,
) -> (r: Scalar)
    requires
        i < domain_4n.size,
        domain_4n.size + 4 <= usize::MAX,
        scalar_v(*x) == domain_4n.coset_point(i as int),
        wl@.len() >= domain_4n.size,
        wr@.len() >= domain_4n.size,
        wo@.len() >= domain_4n.size,
        w4@.len() >= domain_4n.size,
        z@.len() >= domain_4n.size + 4,
        sl@.len() >= domain_4n.size,
        sr@.len() >= domain_4n.size,
        so@.len() >= domain_4n.size,
        s4@.len() >= domain_4n.size,
        l1@.len() >= domain_4n.size,
    ensures
        scalar_v(r) == perm_numerator_at(
            *domain_4n,
            scalar_v(*alpha),
            scalar_v(*beta),
            scalar_v(*gamma),
            seq_vals(wl@),
            seq_vals(wr@),
            seq_vals(wo@),
            seq_vals(w4@),
            seq_vals(z@),
            seq_vals(sl@),
            seq_vals(sr@),
            seq_vals(so@),
            seq_vals(s4@),
            seq_vals(l1@),
            i as int,
        ),
{
    let one = s_one();
    let k1s = s_from_u64(7);
    let k2s = s_from_u64(13);
    let k3s = s_from_u64(17);
    let alpha_sq = s_mul(alpha, alpha);
    proof {
        vstd::arithmetic::div_mod::lemma_small_mod(7, r_order());
        vstd::arithmetic::div_mod::lemma_small_mod(13, r_order());
        vstd::arithmetic::div_mod::lemma_small_mod(17, r_order());
    }
    let f_l = s_add(&s_add(&wl[i], &s_mul(beta, x)), gamma);
    let f_r = s_add(&s_add(&wr[i], &s_mul(beta, &s_mul(&k1s, x))), gamma);
    let f_o = s_add(&s_add(&wo[i], &s_mul(beta, &s_mul(&k2s, x))), gamma);
    let f_4 = s_add(&s_add(&w4[i], &s_mul(beta, &s_mul(&k3s, x))), gamma);
    let ident = s_mul(&s_mul(&s_mul(&s_mul(&s_mul(&z[i], &f_l), &f_r), &f_o), &f_4), alpha);
    let g_l = s_add(&s_add(&wl[i], &s_mul(beta, &sl[i])), gamma);
    let g_r = s_add(&s_add(&wr[i], &s_mul(beta, &sr[i])), gamma);
    let g_o = s_add(&s_add(&wo[i], &s_mul(beta, &so[i])), gamma);
    let g_4 = s_add(&s_add(&w4[i], &s_mul(beta, &s4[i])), gamma);
    let copy = s_mul(&s_mul(&s_mul(&s_mul(&s_mul(&z[i + 4], &g_l), &g_r), &g_o), &g_4), alpha);
    let bound = s_mul(&s_mul(&s_sub(&z[i], &one), &l1[i]), &alpha_sq);
    let r = s_add(&s_sub(&ident, &copy), &bound);
    proof {
        reveal(perm_numerator_at);
    }
    r
}

/// Divides the combined numerator by the vanishing value at every row of
/// the extended domain. Fails exactly when some vanishing value is zero —
/// a fatal domain defect, never a recoverable condition.
#[verifier::rlimit(100)]
#[verifier::loop_isolation(false)]
pub fn compute_quotient_evals(
    domain_4n: &EvaluationDomain,
    arith: &crate::widget::arithmetic::ProverKey,
    logic: &crate::widget::logic::ProverKey,
    v_h: &Vec<Scalar>,
    wl: &Vec<Scalar>,
    wr: &Vec<Scalar>,
    wo: &Vec<Scalar>,
    w4: &Vec<Scalar>,
    pi: &Vec<Scalar>,
    z: &Vec<Scalar>,
    sl: &Vec<Scalar>,
    sr: &Vec<Scalar>,
    so: &Vec<Scalar>,
    s4: &Vec<Scalar>,
    l1: &Vec<Scalar>,
    alpha: &Scalar,
    beta: &Scalar,
    gamma: &Scalar,
    sep: &Scalar,
) -> (r: Result<Vec<Scalar>, Error>)
    requires
        domain_4n.wf(),
        domain_4n.size + 4 <= usize::MAX,
        arith.evals_cover(domain_4n.size as int),
        logic.evals_cover(domain_4n.size as int),
        v_h@.len() >= domain_4n.size,
        wl@.len() >= domain_4n.size + 4,
        wr@.len() >= domain_4n.size + 4,
        wo@.len() >= domain_4n.size,
        w4@.len() >= domain_4n.size + 4,
        pi@.len() >= domain_4n.size,
        z@.len() >= domain_4n.size + 4,
        sl@.len() >= domain_4n.size,
        sr@.len() >= domain_4n.size,
        so@.len() >= domain_4n.size,
        s4@.len() >= domain_4n.size,
        l1@.len() >= domain_4n.size,
    ensures
        r is Ok ==> r->Ok_0@.len() == domain_4n.size && (forall|i: int|
            0 <= i < domain_4n.size ==> fmul(
                scalar_v(r->Ok_0@[i]),
                scalar_v(v_h@[i]),
            ) == numerator_seq(
                *domain_4n,
                *arith,
                *logic,
                scalar_v(*alpha),
                scalar_v(*beta),
                scalar_v(*gamma),
                scalar_v(*sep),
                seq_vals(wl@),
                seq_vals(wr@),
                seq_vals(wo@),
                seq_vals(w4@),
                seq_vals(pi@),
                seq_vals(z@),
                seq_vals(sl@),
                seq_vals(sr@),
                seq_vals(so@),
                seq_vals(s4@),
                seq_vals(l1@),
            )[i]),
        r is Err <==> exists|i: int|
            0 <= i < domain_4n.size && scalar_v(#[trigger] v_h@[i]) == 0,
        r is Err ==> r->Err_0 == Error::UninvertibleValue,
{
    let ghost numer = numerator_seq(
        *domain_4n,
        *arith,
        *logic,
        scalar_v(*alpha),
        scalar_v(*beta),
        scalar_v(*gamma),
        scalar_v(*sep),
        seq_vals(wl@),
        seq_vals(wr@),
        seq_vals(wo@),
        seq_vals(w4@),
        seq_vals(pi@),
        seq_vals(z@),
        seq_vals(sl@),
        seq_vals(sr@),
        seq_vals(so@),
        seq_vals(s4@),
        seq_vals(l1@),
    );
    proof {
        vstd::arithmetic::div_mod::lemma_small_mod(1, r_order());
        crate::field::lemma_fmul_one(coset_gen_v());
    }
    let mut x = s_clone(&domain_4n.coset_gen);
    let mut out: Vec<Scalar> = Vec::new();
    let mut i: usize = 0;
    while i < domain_4n.size
        invariant
            i <= domain_4n.size,
            out@.len() == i,
            scalar_v(x) == domain_4n.coset_point(i as int),
            forall|k: int|
                0 <= k < i ==> fmul(scalar_v(out@[k]), scalar_v(v_h@[k])) == numer[k],
            forall|k: int| 0 <= k < i ==> scalar_v(#[trigger] v_h@[k]) != 0,
        decreases domain_4n.size - i,
    {
        let gate = gate_term_at(arith, logic, sep, i, wl, wr, wo, w4, pi);
        let perm_term = perm_term_at(
            domain_4n,
            i,
            &x,
            alpha,
            beta,
            gamma,
            wl,
            wr,
            wo,
            w4,
            z,
            sl,
            sr,
            so,
            s4,
            l1,
        );
        let numer_s = s_add(&gate, &perm_term);
        proof {
            assert(scalar_v(numer_s) == numer[i as int]) by {
                reveal(numerator_seq);
            }
        }
        let inv = match s_invert(&v_h[i]) {
            Some(y) => y,
            None => {
                return Err(Error::UninvertibleValue);
            },
        };
        let qv = s_mul(&numer_s, &inv);
        proof {
            lemma_fadd_bound(scalar_v(gate), scalar_v(perm_term));
            lemma_cancel_inverse(scalar_v(numer_s), scalar_v(v_h@[i as int]), scalar_v(inv));
        }
        out.push(qv);
        let xn = s_mul(&x, &domain_4n.group_gen);
        proof {
            let g = scalar_v(domain_4n.group_gen);
            crate::field::lemma_fmul_assoc(coset_gen_v(), fpow(g, i as nat), g);
            lemma_fmul_comm(fpow(g, i as nat), g);
            assert(fmul(g, fpow(g, i as nat)) == fpow(g, (i + 1) as nat));
        }
        x = xn;
        i = i + 1;
    }
    Ok(out)
}

/// Coset-transforms a polynomial and appends the wrap-around entries.
fn coset_fft_wrapped(d4: &EvaluationDomain, p: &Vec<Scalar>) -> (r: Vec<Scalar>)
    requires
        d4.wf(),
        d4.size >= 4,
        d4.size + 4 <= usize::MAX,
    ensures
        r@.len() == d4.size + 4,
        seq_vals(r@) == wrap4(coset_evals(*d4, seq_vals(p@))),
{
    let mut e = d4.coset_fft(p);
    proof {
        reveal(coset_evals);
        assert(seq_vals(e@) =~= coset_evals(*d4, seq_vals(p@)));
    }
    extend_wrap4(&mut e);
    e
}

/// Coset-transforms a polynomial.
fn coset_fft_plain(d4: &EvaluationDomain, p: &Vec<Scalar>) -> (r: Vec<Scalar>)
    requires
        d4.wf(),
    ensures
        r@.len() == d4.size,
        seq_vals(r@) == coset_evals(*d4, seq_vals(p@)),
{
    let e = d4.coset_fft(p);
    proof {
        reveal(coset_evals);
        assert(seq_vals(e@) =~= coset_evals(*d4, seq_vals(p@)));
    }
    e
}

/// A transform result with the stated evaluations, multiplied back by the
/// vanishing values, reconstructs every numerator: packaging the
/// quotient's defining facts.
proof fn lemma_quotient_witness(
    qq: Seq<nat>,
    out_vals: Seq<nat>,
    d4: EvaluationDomain,
    vh: Seq<nat>,
    numer: Seq<nat>,
)
    requires
        qq.len() == d4.size,
        forall|i: int| 0 <= i < d4.size ==> fmul(qq[i], vh[i]) == numer[i],
        out_vals == Seq::new(
            d4.size as nat,
            |j: int|
                fmul(
                    fpow(scalar_v(d4.coset_gen_inv), j as nat),
                    idft_coeff(qq, scalar_v(d4.group_gen_inv), scalar_v(d4.size_inv), j),
                ),
        ),
    ensures
        is_quotient_of(qq, out_vals, d4, vh, numer),
{
}

/// The assembled quotient's defining property: some evaluation vector
/// multiplies back by the cached vanishing values to the combined
/// numerator of every row, and the result holds its inverse coset
/// transform. The numerator is stated over the coset evaluations of the
/// inputs, with the wrap-around entries for the columns read one
/// base-domain row ahead.
pub open spec fn quotient_post(
    r_vals: Seq<nat>,
    domain: EvaluationDomain,
    d4: EvaluationDomain,
    pre: PreProcessedCircuit,
    wl: Seq<nat>,
    wr: Seq<nat>,
    wo: Seq<nat>,
    w4: Seq<nat>,
    pi: Seq<nat>,
    z: Seq<nat>,
    alpha: nat,
    beta: nat,
    gamma: nat,
    sep: nat,
) -> bool {
    exists|q: Seq<nat>|
        is_quotient_of(
            q,
            r_vals,
            d4,
            seq_vals(pre.v_h_coset_4n@),
            numerator_seq(
                d4,
                pre.arithmetic,
                pre.logic,
                alpha,
                beta,
                gamma,
                sep,
                wrap4(coset_evals(d4, wl)),
                wrap4(coset_evals(d4, wr)),
                coset_evals(d4, wo),
                wrap4(coset_evals(d4, w4)),
                coset_evals(d4, pi),
                wrap4(coset_evals(d4, z)),
                coset_evals(d4, seq_vals(pre.permutation.left_sigma@)),
                coset_evals(d4, seq_vals(pre.permutation.right_sigma@)),
                coset_evals(d4, seq_vals(pre.permutation.out_sigma@)),
                coset_evals(d4, seq_vals(pre.permutation.fourth_sigma@)),
                coset_evals(d4, l1_coeffs_spec(domain)),
            ),
        )
}

/// Computes the quotient polynomial: coset-transforms the grand product,
/// the witnesses, the public inputs and the sigma polynomials onto the
/// extended domain, combines every widget's contribution with the
/// permutation argument at each row, divides by the cached vanishing
/// values, and transforms back to coefficient form. Fails exactly when
/// some cached vanishing value is zero.
#[verifier::rlimit(100)]
#[verifier::spinoff_prover]
pub fn compute(
    domain: &EvaluationDomain,
    domain_4n: &EvaluationDomain,
    preprocessed_circuit: &PreProcessedCircuit,
    z_poly: &Vec<Scalar>,
    w_l_poly: &Vec<Scalar>,
    w_r_poly: &Vec<Scalar>,
    w_o_poly: &Vec<Scalar>,
    w_4_poly: &Vec<Scalar>,
    public_inputs_poly: &Vec<Scalar>,
    alpha: &Scalar,
    beta: &Scalar,
    gamma: &Scalar,
    logic_separation_challenge: &Scalar,
) -> (r: Result<Vec<Scalar>, Error>)
    requires
        domain.wf(),
        domain_4n.wf(),
        domain_4n.size == 4 * domain.size,
        domain_4n.size + 4 <= usize::MAX,
        preprocessed_circuit.arithmetic.evals_cover(domain_4n.size as int),
        preprocessed_circuit.logic.evals_cover(domain_4n.size as int),
        preprocessed_circuit.v_h_coset_4n@.len() >= domain_4n.size,
    ensures
        r is Err <==> exists|i: int|
            0 <= i < domain_4n.size && scalar_v(
                #[trigger] preprocessed_circuit.v_h_coset_4n@[i],
            ) == 0,
        r is Err ==> r->Err_0 == Error::UninvertibleValue,
        r is Ok ==> r->Ok_0@.len() == domain_4n.size,
        r is Ok ==> quotient_post(
            seq_vals(r->Ok_0@),
            *domain,
            *domain_4n,
            *preprocessed_circuit,
            seq_vals(w_l_poly@),
            seq_vals(w_r_poly@),
            seq_vals(w_o_poly@),
            seq_vals(w_4_poly@),
            seq_vals(public_inputs_poly@),
            seq_vals(z_poly@),
            scalar_v(*alpha),
            scalar_v(*beta),
            scalar_v(*gamma),
            scalar_v(*logic_separation_challenge),
        ),
{
    let wl_e = coset_fft_wrapped(domain_4n, w_l_poly);
    let wr_e = coset_fft_wrapped(domain_4n, w_r_poly);
    let wo_e = coset_fft_plain(domain_4n, w_o_poly);
    let w4_e = coset_fft_wrapped(domain_4n, w_4_poly);
    let pi_e = coset_fft_plain(domain_4n, public_inputs_poly);
    let z_e = coset_fft_wrapped(domain_4n, z_poly);
    let sl_e = coset_fft_plain(domain_4n, &preprocessed_circuit.permutation.left_sigma);
    let sr_e = coset_fft_plain(domain_4n, &preprocessed_circuit.permutation.right_sigma);
    let so_e = coset_fft_plain(domain_4n, &preprocessed_circuit.permutation.out_sigma);
    let s4_e = coset_fft_plain(domain_4n, &preprocessed_circuit.permutation.fourth_sigma);
    let mut l1_c: Vec<Scalar> = Vec::new();
    let mut j: usize = 0;
    while j < domain.size
        invariant
            j <= domain.size,
            l1_c@.len() == j,
            forall|k: int| 0 <= k < j ==> scalar_v(l1_c@[k]) == scalar_v(domain.size_inv),
        decreases domain.size - j,
    {
        l1_c.push(s_clone(&domain.size_inv));
        j = j + 1;
    }
    proof {
        assert(seq_vals(l1_c@) =~= l1_coeffs_spec(*domain));
    }
    let l1_e = coset_fft_plain(domain_4n, &l1_c);
    proof {
        assert(seq_vals(l1_e@) == coset_evals(*domain_4n, l1_coeffs_spec(*domain)));
    }
    match compute_quotient_evals(
        domain_4n,
        &preprocessed_circuit.arithmetic,
        &preprocessed_circuit.logic,
        &preprocessed_circuit.v_h_coset_4n,
        &wl_e,
        &wr_e,
        &wo_e,
        &w4_e,
        &pi_e,
        &z_e,
        &sl_e,
        &sr_e,
        &so_e,
        &s4_e,
        &l1_e,
        alpha,
        beta,
        gamma,
        logic_separation_challenge,
    ) {
        Err(e) => Err(e),
        Ok(q_evals) => {
            let out = domain_4n.coset_ifft(&q_evals);
            proof {
                let qq = seq_vals(q_evals@);
                assert(forall|i: int| 0 <= i < qq.len() ==> qq[i] == scalar_v(#[trigger] q_evals@[i]));
                let numer = numerator_seq(
                    *domain_4n,
                    preprocessed_circuit.arithmetic,
                    preprocessed_circuit.logic,
                    scalar_v(*alpha),
                    scalar_v(*beta),
                    scalar_v(*gamma),
                    scalar_v(*logic_separation_challenge),
                    wrap4(coset_evals(*domain_4n, seq_vals(w_l_poly@))),
                    wrap4(coset_evals(*domain_4n, seq_vals(w_r_poly@))),
                    coset_evals(*domain_4n, seq_vals(w_o_poly@)),
                    wrap4(coset_evals(*domain_4n, seq_vals(w_4_poly@))),
                    coset_evals(*domain_4n, seq_vals(public_inputs_poly@)),
                    wrap4(coset_evals(*domain_4n, seq_vals(z_poly@))),
                    coset_evals(*domain_4n, seq_vals(preprocessed_circuit.permutation.left_sigma@)),
                    coset_evals(
                        *domain_4n,
                        seq_vals(preprocessed_circuit.permutation.right_sigma@),
                    ),
                    coset_evals(*domain_4n, seq_vals(preprocessed_circuit.permutation.out_sigma@)),
                    coset_evals(
                        *domain_4n,
                        seq_vals(preprocessed_circuit.permutation.fourth_sigma@),
                    ),
                    coset_evals(*domain_4n, l1_coeffs_spec(*domain)),
                );
                assert(numer == numerator_seq(
                    *domain_4n,
                    preprocessed_circuit.arithmetic,
                    preprocessed_circuit.logic,
                    scalar_v(*alpha),
                    scalar_v(*beta),
                    scalar_v(*gamma),
                    scalar_v(*logic_separation_challenge),
                    seq_vals(wl_e@),
                    seq_vals(wr_e@),
                    seq_vals(wo_e@),
                    seq_vals(w4_e@),
                    seq_vals(pi_e@),
                    seq_vals(z_e@),
                    seq_vals(sl_e@),
                    seq_vals(sr_e@),
                    seq_vals(so_e@),
                    seq_vals(s4_e@),
                    seq_vals(l1_e@),
                ));
                assert(forall|i: int|
                    0 <= i < domain_4n.size ==> fmul(
                        qq[i],
                        seq_vals(preprocessed_circuit.v_h_coset_4n@)[i],
                    ) == numer[i]);
                assert(seq_vals(out@) =~= Seq::new(
                    domain_4n.size as nat,
                    |j2: int|
                        fmul(
                            fpow(scalar_v(domain_4n.coset_gen_inv), j2 as nat),
                            idft_coeff(
                                qq,
                                scalar_v(domain_4n.group_gen_inv),
                                scalar_v(domain_4n.size_inv),
                                j2,
                            ),
                        ),
                ));
                lemma_quotient_witness(
                    qq,
                    seq_vals(out@),
                    *domain_4n,
                    seq_vals(preprocessed_circuit.v_h_coset_4n@),
                    numer,
                );
                assert(quotient_post(
                    seq_vals(out@),
                    *domain,
                    *domain_4n,
                    *preprocessed_circuit,
                    seq_vals(w_l_poly@),
                    seq_vals(w_r_poly@),
                    seq_vals(w_o_poly@),
                    seq_vals(w_4_poly@),
                    seq_vals(public_inputs_poly@),
                    seq_vals(z_poly@),
                    scalar_v(*alpha),
                    scalar_v(*beta),
                    scalar_v(*gamma),
                    scalar_v(*logic_separation_challenge),
                )) by {
                    assert(exists|q: Seq<nat>|
                        is_quotient_of(
                            q,
                            seq_vals(out@),
                            *domain_4n,
                            seq_vals(preprocessed_circuit.v_h_coset_4n@),
                            numer,
                        ));
                }
            }
            Ok(out)
        },
    }
}

} // verus!
