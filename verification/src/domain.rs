//! The evaluation domain: a power-of-two set of roots of unity together
//! with the coset transforms the quotient assembler needs. The transforms
//! here are specified pointwise — evaluation at the coset points, and the
//! inverse-transform sum — over the residue model.
use vstd::prelude::*;
use bls12_381::Scalar;
use crate::error::Error;
use crate::field::{
    fmul, fpow, fsub, idft_coeff, idft_partial, lemma_fmul_comm, lemma_fmul_one, lemma_fpow_adds,
    lemma_fpow_mul, poly_eval, r_order,
};
use crate::composer::seq_vals;
use crate::scalar::{
    s_add, s_clone, s_from_u64, s_invert, s_mul, s_one, s_pow_u64, s_root_of_unity, s_sub, s_zero,
    scalar_v,
};

verus! {

/// `n` is an exact power of two.
pub open spec fn is_pow2(n: nat) -> bool
    decreases n,
{
    if n == 0 {
        false
    } else if n == 1 {
        true
    } else {
        n % 2 == 0 && is_pow2(n / 2)
    }
}

/// The fixed multiplicative-coset shift: the scalar field's smallest
/// multiplicative generator.
pub open spec fn coset_gen_v() -> nat {
    7nat
}

/// A size-N domain of roots of unity: the generator and the cached
/// inverses the transforms divide by.
pub struct EvaluationDomain {
    /// N: the number of points, a power of two.
    pub size: usize,
    /// A primitive N-th root of unity.
    pub group_gen: Scalar,
    pub group_gen_inv: Scalar,
    /// 1/N in the field.
    pub size_inv: Scalar,
    /// The coset shift (7) and its inverse.
    pub coset_gen: Scalar,
    pub coset_gen_inv: Scalar,
}

impl EvaluationDomain {
    /// The cached inverses really invert, and the coset shift is in place.
    pub open spec fn wf(self) -> bool {
        &&& self.size >= 1
        &&& is_pow2(self.size as nat)
        &&& fmul(scalar_v(self.group_gen), scalar_v(self.group_gen_inv)) == 1
        &&& fmul(self.size as nat, scalar_v(self.size_inv)) == 1
        &&& scalar_v(self.coset_gen) == coset_gen_v()
        &&& fmul(coset_gen_v(), scalar_v(self.coset_gen_inv)) == 1
    }

    /// The i-th point of the shifted (coset) domain: `7 * gen^i`.
    pub open spec fn coset_point(self, i: int) -> nat {
        fmul(coset_gen_v(), fpow(scalar_v(self.group_gen), i as nat))
    }

    /// Builds a domain of the given size. Rejects a size that is zero, not
    /// a power of two, or beyond the two-adicity of the scalar field
    /// (2^32); fails with an uninvertible-value error if the generator
    /// cannot be inverted.
    pub fn new(size: usize) -> (r: Result<EvaluationDomain, Error>)
        ensures
            !is_pow2(size as nat) ==> r == Result::<EvaluationDomain, Error>::Err(
                Error::InvalidEvalDomainSize,
            ),
            size > 0x1_0000_0000 ==> r == Result::<EvaluationDomain, Error>::Err(
                Error::InvalidEvalDomainSize,
            ),
            r is Ok ==> (r->Ok_0).wf() && (r->Ok_0).size == size,
            size >= 1 && is_pow2(size as nat) && size <= 0x1_0000_0000 ==> r is Ok,
    {
        if size == 0 {
            return Err(Error::InvalidEvalDomainSize);
        }
        let mut m: usize = size;
        let mut log2: u32 = 0;
        proof {
            vstd::arithmetic::power2::lemma2_to64();
        }
        while m > 1
            invariant
                1 <= m <= size,
                is_pow2(size as nat) <==> is_pow2(m as nat),
                log2 <= 64,
                m > 1 ==> log2 < 64,
                (m as nat) * vstd::arithmetic::power2::pow2(log2 as nat) == size,
            decreases m,
        {
            if m % 2 == 1 {
                return Err(Error::InvalidEvalDomainSize);
            }
            proof {
                vstd::arithmetic::power2::lemma_pow2_unfold((log2 + 1) as nat);
                assert((m / 2) as nat * vstd::arithmetic::power2::pow2((log2 + 1) as nat) == size)
                    by (nonlinear_arith)
                    requires
                        (m as nat) * vstd::arithmetic::power2::pow2(log2 as nat) == size,
                        m % 2 == 0,
                        m >= 2,
                        vstd::arithmetic::power2::pow2((log2 + 1) as nat) == 2 * vstd::arithmetic::power2::pow2(log2 as nat),
                ;
                if log2 + 1 >= 64 {
                    vstd::arithmetic::power2::lemma2_to64_rest();
                    if log2 + 1 > 64 {
                        vstd::arithmetic::power2::lemma_pow2_strictly_increases(
                            64,
                            (log2 + 1) as nat,
                        );
                    }
                    assert((m / 2) as nat * vstd::arithmetic::power2::pow2((log2 + 1) as nat)
                        >= vstd::arithmetic::power2::pow2(64)) by (nonlinear_arith)
                        requires
                            m / 2 >= 1,
                            vstd::arithmetic::power2::pow2((log2 + 1) as nat)
                                >= vstd::arithmetic::power2::pow2(64),
                    ;
                    assert(false);
                }
            }
            m = m / 2;
            log2 = log2 + 1;
        }
        if log2 > 32 {
            proof {
                if is_pow2(size as nat) {
                    vstd::arithmetic::power2::lemma2_to64_rest();
                    vstd::arithmetic::power2::lemma_pow2_strictly_increases(32, log2 as nat);
                }
            }
            return Err(Error::InvalidEvalDomainSize);
        }
        proof {
            vstd::arithmetic::power2::lemma2_to64();
            vstd::arithmetic::power2::lemma_pow2_adds(log2 as nat, (32 - log2) as nat);
            vstd::arithmetic::power2::lemma_pow2_pos((32 - log2) as nat);
            assert(vstd::arithmetic::power2::pow2(log2 as nat) <= vstd::arithmetic::power2::pow2(
                32,
            )) by (nonlinear_arith)
                requires
                    vstd::arithmetic::power2::pow2(32) == vstd::arithmetic::power2::pow2(
                        log2 as nat,
                    ) * vstd::arithmetic::power2::pow2((32 - log2) as nat),
                    vstd::arithmetic::power2::pow2((32 - log2) as nat) >= 1,
                    vstd::arithmetic::power2::pow2(log2 as nat) >= 1,
            ;
            assert(size <= 0x1_0000_0000);
        }
        let root = s_root_of_unity();
        proof {
            if log2 > 0 {
                vstd::arithmetic::power2::lemma_pow2_strictly_increases((32 - log2) as nat, 32);
            }
            vstd::bits::lemma_u64_shl_is_mul(1u64, (32 - log2) as u64);
        }
        let exponent: u64 = 1u64 << ((32 - log2) as u64);
        let group_gen = s_pow_u64(&root, exponent);
        proof {
            lemma_fpow_mul(
                scalar_v(root),
                vstd::arithmetic::power2::pow2((32 - log2) as nat),
                vstd::arithmetic::power2::pow2(log2 as nat),
            );
            vstd::arithmetic::power2::lemma_pow2_adds((32 - log2) as nat, log2 as nat);
            vstd::arithmetic::power2::lemma_pow2_pos(log2 as nat);
            assert(fpow(
                scalar_v(group_gen),
                vstd::arithmetic::power2::pow2(log2 as nat),
            ) == 1);
            crate::field::lemma_root_nonzero(
                scalar_v(group_gen),
                vstd::arithmetic::power2::pow2(log2 as nat),
            );
        }
        let group_gen_inv = match s_invert(&group_gen) {
            Some(x) => x,
            None => {
                proof {
                    assert(false);
                }
                return Err(Error::UninvertibleValue);
            },
        };
        let size_scalar = s_from_u64(size as u64);
        proof {
            vstd::arithmetic::div_mod::lemma_small_mod(size as nat, r_order());
        }
        let size_inv = match s_invert(&size_scalar) {
            Some(x) => x,
            None => {
                proof {
                    assert(false);
                }
                return Err(Error::UninvertibleValue);
            },
        };
        let coset_gen = s_from_u64(7);
        proof {
            vstd::arithmetic::div_mod::lemma_small_mod(7, r_order());
        }
        let coset_gen_inv = match s_invert(&coset_gen) {
            Some(x) => x,
            None => {
                proof {
                    assert(false);
                }
                return Err(Error::UninvertibleValue);
            },
        };
        Ok(
            EvaluationDomain {
                size,
                group_gen,
                group_gen_inv,
                size_inv,
                coset_gen,
                coset_gen_inv,
            },
        )
    }

    /// Evaluates a coefficient vector at one point by Horner's rule.
    pub fn evaluate(coeffs: &Vec<Scalar>, x: &Scalar) -> (r: Scalar)
        ensures
            scalar_v(r) == poly_eval(seq_vals(coeffs@), scalar_v(*x)),
    {
        let mut acc = s_zero();
        let mut j: usize = coeffs.len();
        while j > 0
            invariant
                j <= coeffs@.len(),
                scalar_v(acc) == poly_eval(
                    seq_vals(coeffs@).subrange(j as int, coeffs@.len() as int),
                    scalar_v(*x),
                ),
            decreases j,
        {
            j = j - 1;
            let t = s_mul(x, &acc);
            acc = s_add(&coeffs[j], &t);
            proof {
                let vals = seq_vals(coeffs@);
                let tail = vals.subrange(j + 1, vals.len() as int);
                let cur = vals.subrange(j as int, vals.len() as int);
                assert(cur.drop_first() =~= tail);
                assert(cur[0] == vals[j as int]);
            }
        }
        proof {
            assert(seq_vals(coeffs@).subrange(0, coeffs@.len() as int) =~= seq_vals(coeffs@));
        }
        acc
    }

    /// Evaluates the polynomial on the shifted domain: entry `i` is the
    /// value at `7 * gen^i`.
    pub fn coset_fft(&self, coeffs: &Vec<Scalar>) -> (r: Vec<Scalar>)
        requires
            self.wf(),
        ensures
            r@.len() == self.size,
            forall|i: int|
                0 <= i < self.size ==> scalar_v(r@[i]) == poly_eval(
                    seq_vals(coeffs@),
                    self.coset_point(i),
                ),
    {
        let mut out: Vec<Scalar> = Vec::new();
        let mut point = s_clone(&self.coset_gen);
        proof {
            vstd::arithmetic::div_mod::lemma_small_mod(1, r_order());
            lemma_fmul_one(coset_gen_v());
            assert(scalar_v(point) == self.coset_point(0));
        }
        let mut i: usize = 0;
        while i < self.size
            invariant
                self.wf(),
                i <= self.size,
                out@.len() == i,
                scalar_v(point) == self.coset_point(i as int),
                forall|k: int|
                    0 <= k < i ==> scalar_v(out@[k]) == poly_eval(
                        seq_vals(coeffs@),
                        self.coset_point(k),
                    ),
            decreases self.size - i,
        {
            out.push(Self::evaluate(coeffs, &point));
            let next = s_mul(&point, &self.group_gen);
            proof {
                let g = scalar_v(self.group_gen);
                crate::field::lemma_fmul_assoc(coset_gen_v(), fpow(g, i as nat), g);
                lemma_fmul_comm(fpow(g, i as nat), g);
                assert(fmul(g, fpow(g, i as nat)) == fpow(g, (i + 1) as nat));
            }
            point = next;
            i = i + 1;
        }
        out
    }

    /// The inverse transform: coefficient `j` of the unique polynomial of
    /// degree below N interpolating the evaluations over the plain domain,
    /// computed as `(1/N) * sum_i evals[i] * gen^(-i*j)`.
    pub fn ifft(&self, evals: &Vec<Scalar>) -> (r: Vec<Scalar>)
        requires
            self.wf(),
            evals@.len() == self.size,
        ensures
            r@.len() == self.size,
            forall|j: int|
                0 <= j < self.size ==> scalar_v(r@[j]) == idft_coeff(
                    seq_vals(evals@),
                    scalar_v(self.group_gen_inv),
                    scalar_v(self.size_inv),
                    j,
                ),
    {
        let mut out: Vec<Scalar> = Vec::new();
        let mut j: usize = 0;
        while j < self.size
            invariant
                self.wf(),
                evals@.len() == self.size,
                j <= self.size,
                out@.len() == j,
                forall|k: int|
                    0 <= k < j ==> scalar_v(out@[k]) == idft_coeff(
                        seq_vals(evals@),
                        scalar_v(self.group_gen_inv),
                        scalar_v(self.size_inv),
                        k,
                    ),
            decreases self.size - j,
        {
            let w_j = s_pow_u64(&self.group_gen_inv, j as u64);
            let mut acc = s_zero();
            let mut p = s_one();
            let mut k: usize = 0;
            proof {
                vstd::arithmetic::div_mod::lemma_small_mod(1, r_order());
            }
            while k < self.size
                invariant
                    self.wf(),
                    evals@.len() == self.size,
                    k <= self.size,
                    j < self.size,
                    scalar_v(w_j) == fpow(scalar_v(self.group_gen_inv), j as nat),
                    scalar_v(p) == fpow(scalar_v(self.group_gen_inv), (j * k) as nat),
                    scalar_v(acc) == idft_partial(
                        seq_vals(evals@),
                        scalar_v(self.group_gen_inv),
                        j as int,
                        k as int,
                    ),
                decreases self.size - k,
            {
                let term = s_mul(&evals[k], &p);
                let acc2 = s_add(&acc, &term);
                let p2 = s_mul(&p, &w_j);
                proof {
                    let wi = scalar_v(self.group_gen_inv);
                    lemma_fpow_adds(wi, (j * k) as nat, j as nat);
                    assert((j * k) as nat + j as nat == (j * (k + 1)) as nat) by (nonlinear_arith)
                        requires
                            j >= 0,
                            k >= 0,
                    ;
                }
                acc = acc2;
                p = p2;
                k = k + 1;
            }
            let coeff = s_mul(&self.size_inv, &acc);
            out.push(coeff);
            j = j + 1;
        }
        out
    }

    /// The inverse coset transform: the inverse transform of the
    /// evaluations with each coefficient `j` then scaled by `7^(-j)`,
    /// undoing the coset shift.
    pub fn coset_ifft(&self, evals: &Vec<Scalar>) -> (r: Vec<Scalar>)
        requires
            self.wf(),
            evals@.len() == self.size,
        ensures
            r@.len() == self.size,
            forall|j: int|
                0 <= j < self.size ==> scalar_v(r@[j]) == fmul(
                    fpow(scalar_v(self.coset_gen_inv), j as nat),
                    idft_coeff(
                        seq_vals(evals@),
                        scalar_v(self.group_gen_inv),
                        scalar_v(self.size_inv),
                        j,
                    ),
                ),
    {
        let base = self.ifft(evals);
        let mut out: Vec<Scalar> = Vec::new();
        let mut gpow = s_one();
        proof {
            vstd::arithmetic::div_mod::lemma_small_mod(1, r_order());
        }
        let mut j: usize = 0;
        while j < self.size
            invariant
                self.wf(),
                base@.len() == self.size,
                evals@.len() == self.size,
                j <= self.size,
                out@.len() == j,
                scalar_v(gpow) == fpow(scalar_v(self.coset_gen_inv), j as nat),
                forall|k: int|
                    0 <= k < self.size ==> scalar_v(base@[k]) == idft_coeff(
                        seq_vals(evals@),
                        scalar_v(self.group_gen_inv),
                        scalar_v(self.size_inv),
                        k,
                    ),
                forall|k: int|
                    0 <= k < j ==> scalar_v(out@[k]) == fmul(
                        fpow(scalar_v(self.coset_gen_inv), k as nat),
                        idft_coeff(
                            seq_vals(evals@),
                            scalar_v(self.group_gen_inv),
                            scalar_v(self.size_inv),
                            k,
                        ),
                    ),
            decreases self.size - j,
        {
            out.push(s_mul(&gpow, &base[j]));
            let gnext = s_mul(&gpow, &self.coset_gen_inv);
            proof {
                let gi = scalar_v(self.coset_gen_inv);
                lemma_fmul_comm(fpow(gi, j as nat), gi);
                assert(fpow(gi, (j + 1) as nat) == fmul(gi, fpow(gi, j as nat)));
            }
            gpow = gnext;
            j = j + 1;
        }
        out
    }

    /// The vanishing polynomial of the size-`poly_degree` base domain,
    /// evaluated over this domain's coset: entry `i` is
    /// `(7 * gen^i)^poly_degree - 1`.
    pub fn compute_vanishing_poly_over_coset(&self, poly_degree: u64) -> (r: Vec<Scalar>)
        requires
            self.wf(),
        ensures
            r@.len() == self.size,
            forall|i: int|
                0 <= i < self.size ==> scalar_v(r@[i]) == fsub(
                    fpow(self.coset_point(i), poly_degree as nat),
                    1,
                ),
    {
        let one = s_one();
        let mut out: Vec<Scalar> = Vec::new();
        let mut point = s_clone(&self.coset_gen);
        proof {
            vstd::arithmetic::div_mod::lemma_small_mod(1, r_order());
            lemma_fmul_one(coset_gen_v());
            assert(scalar_v(point) == self.coset_point(0));
        }
        let mut i: usize = 0;
        while i < self.size
            invariant
                self.wf(),
                i <= self.size,
                out@.len() == i,
                scalar_v(one) == 1,
                scalar_v(point) == self.coset_point(i as int),
                forall|k: int|
                    0 <= k < i ==> scalar_v(out@[k]) == fsub(
                        fpow(self.coset_point(k), poly_degree as nat),
                        1,
                    ),
            decreases self.size - i,
        {
            let powed = s_pow_u64(&point, poly_degree);
            out.push(s_sub(&powed, &one));
            let next = s_mul(&point, &self.group_gen);
            proof {
                let g = scalar_v(self.group_gen);
                crate::field::lemma_fmul_assoc(coset_gen_v(), fpow(g, i as nat), g);
                lemma_fmul_comm(fpow(g, i as nat), g);
                assert(fmul(g, fpow(g, i as nat)) == fpow(g, (i + 1) as nat));
            }
            point = next;
            i = i + 1;
        }
        out
    }
}

} // verus!
