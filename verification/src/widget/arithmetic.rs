//! The arithmetic gate widget: the selector data for the general
//! width-4 arithmetic row and its per-row quotient contribution.
use vstd::prelude::*;
use bls12_381::Scalar;
use crate::composer::gate_terms;
use crate::field::{fadd, fmul};
use crate::scalar::{s_add, s_mul, scalar_v};

verus! {

/// The arithmetic widget's contribution at one row: the row equation
/// without the public input, scaled by its own selector:
/// `q_arith·(q_m·(a·b) + q_l·a + q_r·b + q_4·d + q_c + q_o·c)`.
pub open spec fn arith_quotient_term(
    qarith: nat,
    qm: nat,
    ql: nat,
    qr: nat,
    qo: nat,
    q4: nat,
    qc: nat,
    a: nat,
    b: nat,
    c: nat,
    d: nat,
) -> nat {
    fmul(qarith, fadd(gate_terms(qm, ql, qr, q4, qc, a, b, d), fmul(qo, c)))
}

/// The arithmetic widget's selector polynomials, each in coefficient form
/// paired with its evaluations over the extended coset domain.
pub struct ProverKey {
    pub q_m: (Vec<Scalar>, Vec<Scalar>),
    pub q_l: (Vec<Scalar>, Vec<Scalar>),
    pub q_r: (Vec<Scalar>, Vec<Scalar>),
    pub q_o: (Vec<Scalar>, Vec<Scalar>),
    pub q_c: (Vec<Scalar>, Vec<Scalar>),
    pub q_4: (Vec<Scalar>, Vec<Scalar>),
    pub q_arith: (Vec<Scalar>, Vec<Scalar>),
}

impl ProverKey {
    /// Every evaluation table covers at least `size` rows.
    pub open spec fn evals_cover(self, size: int) -> bool {
        &&& self.q_m.1@.len() >= size
        &&& self.q_l.1@.len() >= size
        &&& self.q_r.1@.len() >= size
        &&& self.q_o.1@.len() >= size
        &&& self.q_c.1@.len() >= size
        &&& self.q_4.1@.len() >= size
        &&& self.q_arith.1@.len() >= size
    }

    /// The arithmetic widget's quotient contribution at row `index` of the
    /// extended coset domain.
    pub fn compute_quotient_i(
        &self,
        index: usize,
        w_l_i: &Scalar,
        w_r_i: &Scalar,
        w_o_i: &Scalar,
        w_4_i: &Scalar,
    ) -> (r: Scalar)
        requires
            self.evals_cover(index + 1),
        ensures
            scalar_v(r) == arith_quotient_term(
                scalar_v(self.q_arith.1@[index as int]),
                scalar_v(self.q_m.1@[index as int]),
                scalar_v(self.q_l.1@[index as int]),
                scalar_v(self.q_r.1@[index as int]),
                scalar_v(self.q_o.1@[index as int]),
                scalar_v(self.q_4.1@[index as int]),
                scalar_v(self.q_c.1@[index as int]),
                scalar_v(*w_l_i),
                scalar_v(*w_r_i),
                scalar_v(*w_o_i),
                scalar_v(*w_4_i),
            ),
    {
        let ab = s_mul(w_l_i, w_r_i);
        let t_m = s_mul(&self.q_m.1[index], &ab);
        let t_l = s_mul(&self.q_l.1[index], w_l_i);
        let t_r = s_mul(&self.q_r.1[index], w_r_i);
        let t_4 = s_mul(&self.q_4.1[index], w_4_i);
        let t_o = s_mul(&self.q_o.1[index], w_o_i);
        let sum_ml = s_add(&t_m, &t_l);
        let sum_r = s_add(&sum_ml, &t_r);
        let sum_4 = s_add(&sum_r, &t_4);
        let sum_c = s_add(&sum_4, &self.q_c.1[index]);
        let inner = s_add(&sum_c, &t_o);
        s_mul(&self.q_arith.1[index], &inner)
    }
}

} // verus!
