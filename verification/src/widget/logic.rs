//! The logic (bitwise AND/XOR) gate widget: digit-delta checks over
//! base-4 accumulators, the per-row quotient contribution, and the
//! linearisation contribution kept symbolic in the selector polynomial.
use vstd::prelude::*;
use bls12_381::Scalar;
use crate::field::{fadd, fmul, fsub, r_order};
use crate::scalar::{s_add, s_from_u64, s_mul, s_sub, scalar_v};

verus! {

/// The four-way digit check `f·(f−1)·(f−2)·(f−3)`: zero exactly on the
/// base-4 digits 0 through 3.
pub open spec fn delta_v(f: nat) -> nat {
    fmul(fmul(fmul(f, fsub(f, 1)), fsub(f, 2)), fsub(f, 3))
}

/// The XOR/AND selection term: with `E = 3(a+b+c) − 2F` for the digit
/// interpolant `F = w·(w·(4w − 18(a+b) + 81) + 18(a²+b²) − 81(a+b) + 83)`
/// and `B = q_c·(9c − 3(a+b))`, the row asserts an AND relation, a XOR
/// relation, or neither, according to `q_c` being 1, −1 or 0.
pub open spec fn delta_xor_and_v(a: nat, b: nat, w: nat, c: nat, qc: nat) -> nat {
    let ab = fadd(a, b);
    let f3 = fadd(fsub(fmul(4, w), fmul(18, ab)), 81);
    let f5 = fadd(fmul(w, f3), fmul(18, fadd(fmul(a, a), fmul(b, b))));
    let f7 = fadd(fsub(f5, fmul(81, ab)), 83);
    let f = fmul(w, f7);
    let e = fsub(fmul(3, fadd(ab, c)), fmul(2, f));
    let bterm = fmul(qc, fsub(fmul(9, c), fmul(3, ab)));
    fadd(bterm, e)
}

/// The base-4 digit carried between a row and its successor:
/// `next − 4·cur`.
pub open spec fn digit_v(next: nat, cur: nat) -> nat {
    fsub(next, fmul(4, cur))
}

/// The logic widget's full row contribution before the selector and the
/// separation challenge are applied: `c0 + c1 + c2 + c3 + c4` over the
/// powers of `kappa = sep²`, summed in the widget's own order.
pub open spec fn logic_combination(
    sep: nat,
    qc: nat,
    wl: nat,
    wl_n: nat,
    wr: nat,
    wr_n: nat,
    wo: nat,
    w4: nat,
    w4_n: nat,
) -> nat {
    let kappa = fmul(sep, sep);
    let kappa_sq = fmul(kappa, kappa);
    let kappa_cu = fmul(kappa_sq, kappa);
    let kappa_qu = fmul(kappa_cu, kappa);
    let a = digit_v(wl_n, wl);
    let b = digit_v(wr_n, wr);
    let d = digit_v(w4_n, w4);
    let c0 = delta_v(a);
    let c1 = fmul(delta_v(b), kappa);
    let c2 = fmul(delta_v(d), kappa_sq);
    let c3 = fmul(fsub(wo, fmul(a, b)), kappa_cu);
    let c4 = fmul(delta_xor_and_v(a, b, wo, d, qc), kappa_qu);
    fadd(fadd(fadd(fadd(c3, c0), c1), c2), c4)
}

/// The logic widget's quotient contribution at one row: the combination
/// scaled by the row's logic selector and the separation challenge.
pub open spec fn logic_quotient_term(
    qlogic: nat,
    sep: nat,
    qc: nat,
    wl: nat,
    wl_n: nat,
    wr: nat,
    wr_n: nat,
    wo: nat,
    w4: nat,
    w4_n: nat,
) -> nat {
    fmul(fmul(qlogic, logic_combination(sep, qc, wl, wl_n, wr, wr_n, wo, w4, w4_n)), sep)
}

/// The scalar the linearisation multiplies into the logic selector
/// polynomial: the combination at the verifier's evaluation point, summed
/// in the linearisation's own order, scaled by the separation challenge.
pub open spec fn logic_linearisation_scalar(
    sep: nat,
    qc: nat,
    a_e: nat,
    a_n: nat,
    b_e: nat,
    b_n: nat,
    c_e: nat,
    d_e: nat,
    d_n: nat,
) -> nat {
    let kappa = fmul(sep, sep);
    let kappa_sq = fmul(kappa, kappa);
    let kappa_cu = fmul(kappa_sq, kappa);
    let kappa_qu = fmul(kappa_cu, kappa);
    let a = digit_v(a_n, a_e);
    let b = digit_v(b_n, b_e);
    let d = digit_v(d_n, d_e);
    let c0 = delta_v(a);
    let c1 = fmul(delta_v(b), kappa);
    let c2 = fmul(delta_v(d), kappa_sq);
    let c3 = fmul(fsub(c_e, fmul(a, b)), kappa_cu);
    let c4 = fmul(delta_xor_and_v(a, b, c_e, d, qc), kappa_qu);
    fmul(fadd(fadd(fadd(fadd(c0, c1), c2), c3), c4), sep)
}

/// The four-way digit check, executable form.
pub fn delta(f: &Scalar) -> (r: Scalar)
    ensures
        scalar_v(r) == delta_v(scalar_v(*f)),
{
    let one = s_from_u64(1);
    let two = s_from_u64(2);
    let three = s_from_u64(3);
    proof {
        vstd::arithmetic::div_mod::lemma_small_mod(1, r_order());
        vstd::arithmetic::div_mod::lemma_small_mod(2, r_order());
        vstd::arithmetic::div_mod::lemma_small_mod(3, r_order());
    }
    let f1 = s_sub(f, &one);
    let f2 = s_sub(f, &two);
    let f3 = s_sub(f, &three);
    let t1 = s_mul(f, &f1);
    let t2 = s_mul(&t1, &f2);
    s_mul(&t2, &f3)
}

/// The XOR/AND selection term, executable form.
pub fn delta_xor_and(a: &Scalar, b: &Scalar, w: &Scalar, c: &Scalar, q_c: &Scalar) -> (r: Scalar)
    ensures
        scalar_v(r) == delta_xor_and_v(
            scalar_v(*a),
            scalar_v(*b),
            scalar_v(*w),
            scalar_v(*c),
            scalar_v(*q_c),
        ),
{
    let two = s_from_u64(2);
    let three = s_from_u64(3);
    let four = s_from_u64(4);
    let nine = s_from_u64(9);
    let eighteen = s_from_u64(18);
    let eighty_one = s_from_u64(81);
    let eighty_three = s_from_u64(83);
    proof {
        vstd::arithmetic::div_mod::lemma_small_mod(2, r_order());
        vstd::arithmetic::div_mod::lemma_small_mod(3, r_order());
        vstd::arithmetic::div_mod::lemma_small_mod(4, r_order());
        vstd::arithmetic::div_mod::lemma_small_mod(9, r_order());
        vstd::arithmetic::div_mod::lemma_small_mod(18, r_order());
        vstd::arithmetic::div_mod::lemma_small_mod(81, r_order());
        vstd::arithmetic::div_mod::lemma_small_mod(83, r_order());
    }
    let ab = s_add(a, b);
    let f1 = s_mul(&four, w);
    let f2 = s_sub(&f1, &s_mul(&eighteen, &ab));
    let f3 = s_add(&f2, &eighty_one);
    let f4 = s_mul(w, &f3);
    let aa = s_mul(a, a);
    let bb = s_mul(b, b);
    let f5 = s_add(&f4, &s_mul(&eighteen, &s_add(&aa, &bb)));
    let f6 = s_sub(&f5, &s_mul(&eighty_one, &ab));
    let f7 = s_add(&f6, &eighty_three);
    let f = s_mul(w, &f7);
    let e = s_sub(&s_mul(&three, &s_add(&ab, c)), &s_mul(&two, &f));
    let bterm = s_mul(q_c, &s_sub(&s_mul(&nine, c), &s_mul(&three, &ab)));
    s_add(&bterm, &e)
}

/// The logic widget's selector polynomials, each in coefficient form
/// paired with its evaluations over the extended coset domain.
pub struct ProverKey {
    pub q_c: (Vec<Scalar>, Vec<Scalar>),
    pub q_logic: (Vec<Scalar>, Vec<Scalar>),
}

impl ProverKey {
    /// Both evaluation tables cover at least `size` rows.
    pub open spec fn evals_cover(self, size: int) -> bool {
        &&& self.q_c.1@.len() >= size
        &&& self.q_logic.1@.len() >= size
    }

    /// The logic widget's quotient contribution at row `index` of the
    /// extended coset domain, given the wire evaluations there and at the
    /// next base-domain row.
    pub fn compute_quotient_i(
        &self,
        index: usize,
        logic_separation_challenge: &Scalar,
        w_l_i: &Scalar,
        w_l_i_next: &Scalar,
        w_r_i: &Scalar,
        w_r_i_next: &Scalar,
        w_o_i: &Scalar,
        w_4_i: &Scalar,
        w_4_i_next: &Scalar,
    ) -> (r: Scalar)
        requires
            self.evals_cover(index + 1),
        ensures
            scalar_v(r) == logic_quotient_term(
                scalar_v(self.q_logic.1@[index as int]),
                scalar_v(*logic_separation_challenge),
                scalar_v(self.q_c.1@[index as int]),
                scalar_v(*w_l_i),
                scalar_v(*w_l_i_next),
                scalar_v(*w_r_i),
                scalar_v(*w_r_i_next),
                scalar_v(*w_o_i),
                scalar_v(*w_4_i),
                scalar_v(*w_4_i_next),
            ),
    {
        let four = s_from_u64(4);
        proof {
            vstd::arithmetic::div_mod::lemma_small_mod(4, r_order());
        }
        let kappa = s_mul(logic_separation_challenge, logic_separation_challenge);
        let kappa_sq = s_mul(&kappa, &kappa);
        let kappa_cu = s_mul(&kappa_sq, &kappa);
        let kappa_qu = s_mul(&kappa_cu, &kappa);
        let a = s_sub(w_l_i_next, &s_mul(&four, w_l_i));
        let c_0 = delta(&a);
        let b = s_sub(w_r_i_next, &s_mul(&four, w_r_i));
        let c_1 = s_mul(&delta(&b), &kappa);
        let d = s_sub(w_4_i_next, &s_mul(&four, w_4_i));
        let c_2 = s_mul(&delta(&d), &kappa_sq);
        let ab = s_mul(&a, &b);
        let c_3 = s_mul(&s_sub(w_o_i, &ab), &kappa_cu);
        let c_4 = s_mul(&delta_xor_and(&a, &b, w_o_i, &d, &self.q_c.1[index]), &kappa_qu);
        let sum = s_add(&s_add(&s_add(&s_add(&c_3, &c_0), &c_1), &c_2), &c_4);
        let scaled = s_mul(&self.q_logic.1[index], &sum);
        s_mul(&scaled, logic_separation_challenge)
    }

    /// The linearisation contribution: the same combination evaluated at
    /// the verifier's challenge point, kept symbolic in the logic selector
    /// polynomial — the result is that polynomial scaled coefficient-wise.
    pub fn compute_linearisation(
        &self,
        logic_separation_challenge: &Scalar,
        a_eval: &Scalar,
        a_next_eval: &Scalar,
        b_eval: &Scalar,
        b_next_eval: &Scalar,
        c_eval: &Scalar,
        d_eval: &Scalar,
        d_next_eval: &Scalar,
        q_c_eval: &Scalar,
    ) -> (r: Vec<Scalar>)
        ensures
            r@.len() == self.q_logic.0@.len(),
            forall|j: int|
                0 <= j < r@.len() ==> scalar_v(r@[j]) == fmul(
                    scalar_v(self.q_logic.0@[j]),
                    logic_linearisation_scalar(
                        scalar_v(*logic_separation_challenge),
                        scalar_v(*q_c_eval),
                        scalar_v(*a_eval),
                        scalar_v(*a_next_eval),
                        scalar_v(*b_eval),
                        scalar_v(*b_next_eval),
                        scalar_v(*c_eval),
                        scalar_v(*d_eval),
                        scalar_v(*d_next_eval),
                    ),
                ),
    {
        let four = s_from_u64(4);
        proof {
            vstd::arithmetic::div_mod::lemma_small_mod(4, r_order());
        }
        let kappa = s_mul(logic_separation_challenge, logic_separation_challenge);
        let kappa_sq = s_mul(&kappa, &kappa);
        let kappa_cu = s_mul(&kappa_sq, &kappa);
        let kappa_qu = s_mul(&kappa_cu, &kappa);
        let a = s_sub(a_next_eval, &s_mul(&four, a_eval));
        let c_0 = delta(&a);
        let b = s_sub(b_next_eval, &s_mul(&four, b_eval));
        let c_1 = s_mul(&delta(&b), &kappa);
        let d = s_sub(d_next_eval, &s_mul(&four, d_eval));
        let c_2 = s_mul(&delta(&d), &kappa_sq);
        let ab = s_mul(&a, &b);
        let c_3 = s_mul(&s_sub(c_eval, &ab), &kappa_cu);
        let c_4 = s_mul(&delta_xor_and(&a, &b, c_eval, &d, q_c_eval), &kappa_qu);
        let sum = s_add(&s_add(&s_add(&s_add(&c_0, &c_1), &c_2), &c_3), &c_4);
        let t = s_mul(&sum, logic_separation_challenge);
        let mut out: Vec<Scalar> = Vec::new();
        let mut j: usize = 0;
        while j < self.q_logic.0.len()
            invariant
                j <= self.q_logic.0@.len(),
                out@.len() == j,
                scalar_v(t) == logic_linearisation_scalar(
                    scalar_v(*logic_separation_challenge),
                    scalar_v(*q_c_eval),
                    scalar_v(*a_eval),
                    scalar_v(*a_next_eval),
                    scalar_v(*b_eval),
                    scalar_v(*b_next_eval),
                    scalar_v(*c_eval),
                    scalar_v(*d_eval),
                    scalar_v(*d_next_eval),
                ),
                forall|k: int|
                    0 <= k < j ==> scalar_v(out@[k]) == fmul(
                        scalar_v(self.q_logic.0@[k]),
                        scalar_v(t),
                    ),
            decreases self.q_logic.0@.len() - j,
        {
            out.push(s_mul(&self.q_logic.0[j], &t));
            j = j + 1;
        }
        out
    }
}

} // verus!
