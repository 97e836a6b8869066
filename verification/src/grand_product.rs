//! The grand-product polynomial of the permutation argument: an
//! accumulator over the base domain whose value starts at one and picks
//! up, row by row, the ratio of identity-labeled to sigma-labeled wire
//! factors. All copy constraints hold exactly when the accumulator
//! closes back to one.
use vstd::prelude::*;
use bls12_381::Scalar;
use crate::composer::seq_vals;
use crate::domain::EvaluationDomain;
use crate::error::Error;
use crate::field::{
    fmul, fpow, lemma_cancel_inverse, lemma_fmul_assoc, lemma_fmul_bound, lemma_fmul_comm, r_order,
};
use crate::quotient::{k1, k2, k3, side_factor};
use crate::scalar::{s_add, s_from_u64, s_invert, s_mul, s_one, scalar_v};

verus! {

/// The row's numerator factor product: the four wires with their
/// identity labels `x, 7x, 13x, 17x` at `x = omega^i`.
pub open spec fn gp_num_at(
    wl: Seq<nat>,
    wr: Seq<nat>,
    wo: Seq<nat>,
    w4: Seq<nat>,
    omega: nat,
    beta: nat,
    gamma: nat,
    i: int,
) -> nat {
    let x = fpow(omega, i as nat);
    fmul(
        fmul(
            fmul(
                side_factor(wl[i], beta, x, gamma),
                side_factor(wr[i], beta, fmul(k1(), x), gamma),
            ),
            side_factor(wo[i], beta, fmul(k2(), x), gamma),
        ),
        side_factor(w4[i], beta, fmul(k3(), x), gamma),
    )
}

/// The row's denominator factor product: the same wires with their
/// sigma labels.
pub open spec fn gp_den_at(
    wl: Seq<nat>,
    wr: Seq<nat>,
    wo: Seq<nat>,
    w4: Seq<nat>,
    sl: Seq<nat>,
    sr: Seq<nat>,
    so: Seq<nat>,
    s4: Seq<nat>,
    beta: nat,
    gamma: nat,
    i: int,
) -> nat {
    fmul(
        fmul(
            fmul(side_factor(wl[i], beta, sl[i], gamma), side_factor(wr[i], beta, sr[i], gamma)),
            side_factor(wo[i], beta, so[i], gamma),
        ),
        side_factor(w4[i], beta, s4[i], gamma),
    )
}

/// One row's numerator product, executable form.
fn gp_num_exec(
    i: usize,
    x: &Scalar,
    wl: &Vec<Scalar>,
    wr: &Vec<Scalar>,
    wo: &Vec<Scalar>,
    w4: &Vec<Scalar>,
    beta: &Scalar,
    gamma: &Scalar,
    omega: &Scalar,
) -> (r: Scalar)
    requires
        i < wl@.len(),
        i < wr@.len(),
        i < wo@.len(),
        i < w4@.len(),
        scalar_v(*x) == fpow(scalar_v(*omega), i as nat),
    ensures
        scalar_v(r) == gp_num_at(
            seq_vals(wl@),
            seq_vals(wr@),
            seq_vals(wo@),
            seq_vals(w4@),
            scalar_v(*omega),
            scalar_v(*beta),
            scalar_v(*gamma),
            i as int,
        ),
{
    let k1s = s_from_u64(7);
    let k2s = s_from_u64(13);
    let k3s = s_from_u64(17);
    proof {
        vstd::arithmetic::div_mod::lemma_small_mod(7, r_order());
        vstd::arithmetic::div_mod::lemma_small_mod(13, r_order());
        vstd::arithmetic::div_mod::lemma_small_mod(17, r_order());
    }
    let f_l = s_add(&s_add(&wl[i], &s_mul(beta, x)), gamma);
    let f_r = s_add(&s_add(&wr[i], &s_mul(beta, &s_mul(&k1s, x))), gamma);
    let f_o = s_add(&s_add(&wo[i], &s_mul(beta, &s_mul(&k2s, x))), gamma);
    let f_4 = s_add(&s_add(&w4[i], &s_mul(beta, &s_mul(&k3s, x))), gamma);
    s_mul(&s_mul(&s_mul(&f_l, &f_r), &f_o), &f_4)
}

/// One row's denominator product, executable form.
fn gp_den_exec(
    i: usize,
    wl: &Vec<Scalar>,
    wr: &Vec<Scalar>,
    wo: &Vec<Scalar>,
    w4: &Vec<Scalar>,
    sl: &Vec<Scalar>,
    sr: &Vec<Scalar>,
    so: &Vec<Scalar>,
    s4: &Vec<Scalar>,
    beta: &Scalar,
    gamma: &Scalar,
) -> (r: Scalar)
    requires
        i < wl@.len(),
        i < wr@.len(),
        i < wo@.len(),
        i < w4@.len(),
        i < sl@.len(),
        i < sr@.len(),
        i < so@.len(),
        i < s4@.len(),
    ensures
        scalar_v(r) == gp_den_at(
            seq_vals(wl@),
            seq_vals(wr@),
            seq_vals(wo@),
            seq_vals(w4@),
            seq_vals(sl@),
            seq_vals(sr@),
            seq_vals(so@),
            seq_vals(s4@),
            scalar_v(*beta),
            scalar_v(*gamma),
            i as int,
        ),
{
    let g_l = s_add(&s_add(&wl[i], &s_mul(beta, &sl[i])), gamma);
    let g_r = s_add(&s_add(&wr[i], &s_mul(beta, &sr[i])), gamma);
    let g_o = s_add(&s_add(&wo[i], &s_mul(beta, &so[i])), gamma);
    let g_4 = s_add(&s_add(&w4[i], &s_mul(beta, &s4[i])), gamma);
    s_mul(&s_mul(&s_mul(&g_l, &g_r), &g_o), &g_4)
}

/// Computes the grand-product evaluations over the base domain: the
/// first entry is one, and each later entry multiplies the previous one
/// by the row's numerator-over-denominator ratio. Fails exactly when some
/// row's denominator is zero under the given challenges.
#[verifier::rlimit(100)]
#[verifier::loop_isolation(false)]
pub fn compute_grand_product_evals(
    domain: &EvaluationDomain,
    wl: &Vec<Scalar>,
    wr: &Vec<Scalar>,
    wo: &Vec<Scalar>,
    w4: &Vec<Scalar>,
    sl: &Vec<Scalar>,
    sr: &Vec<Scalar>,
    so: &Vec<Scalar>,
    s4: &Vec<Scalar>,
    beta: &Scalar,
    gamma: &Scalar,
) -> (r: Result<Vec<Scalar>, Error>)
    requires
        domain.wf(),
        wl@.len() == domain.size,
        wr@.len() == domain.size,
        wo@.len() == domain.size,
        w4@.len() == domain.size,
        sl@.len() == domain.size,
        sr@.len() == domain.size,
        so@.len() == domain.size,
        s4@.len() == domain.size,
    ensures
        r is Ok ==> r->Ok_0@.len() == domain.size && scalar_v(r->Ok_0@[0]) == 1 && (forall|i: int|
            0 <= i < domain.size - 1 ==> fmul(
                scalar_v(r->Ok_0@[i + 1]),
                gp_den_at(
                    seq_vals(wl@),
                    seq_vals(wr@),
                    seq_vals(wo@),
                    seq_vals(w4@),
                    seq_vals(sl@),
                    seq_vals(sr@),
                    seq_vals(so@),
                    seq_vals(s4@),
                    scalar_v(*beta),
                    scalar_v(*gamma),
                    i,
                ),
            ) == fmul(
                scalar_v(r->Ok_0@[i]),
                gp_num_at(
                    seq_vals(wl@),
                    seq_vals(wr@),
                    seq_vals(wo@),
                    seq_vals(w4@),
                    scalar_v(domain.group_gen),
                    scalar_v(*beta),
                    scalar_v(*gamma),
                    i,
                ),
            )),
        r is Err <==> exists|k: int|
            0 <= k < domain.size - 1 && gp_den_at(
                seq_vals(wl@),
                seq_vals(wr@),
                seq_vals(wo@),
                seq_vals(w4@),
                seq_vals(sl@),
                seq_vals(sr@),
                seq_vals(so@),
                seq_vals(s4@),
                scalar_v(*beta),
                scalar_v(*gamma),
                k,
            ) == 0,
        r is Err ==> r->Err_0 == Error::UninvertibleValue,
{
    let mut out: Vec<Scalar> = Vec::new();
    let one = s_one();
    out.push(one);
    let mut x = s_one();
    proof {
        vstd::arithmetic::div_mod::lemma_small_mod(1, r_order());
    }
    let mut i: usize = 0;
    while i + 1 < domain.size
        invariant
            i < domain.size,
            out@.len() == i + 1,
            scalar_v(out@[0]) == 1,
            scalar_v(x) == fpow(scalar_v(domain.group_gen), i as nat),
            forall|k: int|
                0 <= k < i ==> fmul(
                    scalar_v(out@[k + 1]),
                    gp_den_at(
                        seq_vals(wl@),
                        seq_vals(wr@),
                        seq_vals(wo@),
                        seq_vals(w4@),
                        seq_vals(sl@),
                        seq_vals(sr@),
                        seq_vals(so@),
                        seq_vals(s4@),
                        scalar_v(*beta),
                        scalar_v(*gamma),
                        k,
                    ),
                ) == fmul(
                    scalar_v(out@[k]),
                    gp_num_at(
                        seq_vals(wl@),
                        seq_vals(wr@),
                        seq_vals(wo@),
                        seq_vals(w4@),
                        scalar_v(domain.group_gen),
                        scalar_v(*beta),
                        scalar_v(*gamma),
                        k,
                    ),
                ),
            forall|k: int|
                0 <= k < i ==> gp_den_at(
                    seq_vals(wl@),
                    seq_vals(wr@),
                    seq_vals(wo@),
                    seq_vals(w4@),
                    seq_vals(sl@),
                    seq_vals(sr@),
                    seq_vals(so@),
                    seq_vals(s4@),
                    scalar_v(*beta),
                    scalar_v(*gamma),
                    k,
                ) != 0,
        decreases domain.size - i,
    {
        let num = gp_num_exec(i, &x, wl, wr, wo, w4, beta, gamma, &domain.group_gen);
        let den = gp_den_exec(i, wl, wr, wo, w4, sl, sr, so, s4, beta, gamma);
        let dinv = match s_invert(&den) {
            Some(y) => y,
            None => {
                return Err(Error::UninvertibleValue);
            },
        };
        let ratio = s_mul(&num, &dinv);
        let z_next = s_mul(&out[i], &ratio);
        proof {
            lemma_fmul_bound(
                fmul(
                    fmul(
                        side_factor(
                            seq_vals(wl@)[i as int],
                            scalar_v(*beta),
                            fpow(scalar_v(domain.group_gen), i as nat),
                            scalar_v(*gamma),
                        ),
                        side_factor(
                            seq_vals(wr@)[i as int],
                            scalar_v(*beta),
                            fmul(k1(), fpow(scalar_v(domain.group_gen), i as nat)),
                            scalar_v(*gamma),
                        ),
                    ),
                    side_factor(
                        seq_vals(wo@)[i as int],
                        scalar_v(*beta),
                        fmul(k2(), fpow(scalar_v(domain.group_gen), i as nat)),
                        scalar_v(*gamma),
                    ),
                ),
                side_factor(
                    seq_vals(w4@)[i as int],
                    scalar_v(*beta),
                    fmul(k3(), fpow(scalar_v(domain.group_gen), i as nat)),
                    scalar_v(*gamma),
                ),
            );
            lemma_fmul_assoc(scalar_v(out@[i as int]), scalar_v(ratio), scalar_v(den));
            lemma_fmul_comm(scalar_v(ratio), scalar_v(den));
            lemma_fmul_assoc(scalar_v(den), scalar_v(num), scalar_v(dinv));
            lemma_fmul_comm(scalar_v(den), scalar_v(num));
            lemma_fmul_assoc(scalar_v(num), scalar_v(den), scalar_v(dinv));
            lemma_cancel_inverse(scalar_v(num), scalar_v(den), scalar_v(dinv));
        }
        out.push(z_next);
        proof {
            let bv = scalar_v(*beta);
            let gv = scalar_v(*gamma);
            let denv = gp_den_at(
                seq_vals(wl@),
                seq_vals(wr@),
                seq_vals(wo@),
                seq_vals(w4@),
                seq_vals(sl@),
                seq_vals(sr@),
                seq_vals(so@),
                seq_vals(s4@),
                bv,
                gv,
                i as int,
            );
            let numv = gp_num_at(
                seq_vals(wl@),
                seq_vals(wr@),
                seq_vals(wo@),
                seq_vals(w4@),
                scalar_v(domain.group_gen),
                bv,
                gv,
                i as int,
            );
            assert(fmul(scalar_v(out@[i + 1]), denv) == fmul(scalar_v(out@[i as int]), numv));
        }
        let xn = s_mul(&x, &domain.group_gen);
        proof {
            let g = scalar_v(domain.group_gen);
            lemma_fmul_comm(fpow(g, i as nat), g);
            assert(fpow(g, (i + 1) as nat) == fmul(g, fpow(g, i as nat)));
        }
        x = xn;
        i = i + 1;
    }
    Ok(out)
}

} // verus!
