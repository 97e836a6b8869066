//! The structured reference string (SRS): a one-shot, single-party trusted
//! setup producing the commitment and opening keys, and the trim operation
//! that truncates the commitment key to a smaller degree.
//!
//! The setup here draws its secret from a caller-supplied randomness source
//! and is a stand-in for testing and prototyping, not a production
//! multi-party ceremony.
use vstd::prelude::*;
use bls12_381::{G1Affine, G1Projective, G2Affine, G2Projective, Scalar};
use crate::error::Error;
use crate::field::{fpow, lemma_fmul_comm, r_order};
use crate::group::{
    g1_affine_clone, g1_affine_of, g1_batch_normalize, g1_random, g1_scale, g1_scale_of,
    g1_to_affine, g2_affine_clone, g2_affine_of, g2_random, g2_scale, g2_scale_of, g2_to_affine,
};
use crate::scalar::{s_mul, s_one, s_random, scalar_v};

verus! {

/// Computes the powers 1, s, s^2, ..., s^max_degree of a scalar.
pub fn powers_of(scalar: &Scalar, max_degree: usize) -> (r: Vec<Scalar>)
    requires
        max_degree < usize::MAX,
    ensures
        r@.len() == max_degree + 1,
        forall|i: int| 0 <= i < r@.len() ==> scalar_v(r@[i]) == fpow(scalar_v(*scalar), i as nat),
{
    let mut out: Vec<Scalar> = Vec::new();
    let one = s_one();
    proof {
        vstd::arithmetic::div_mod::lemma_small_mod(1, crate::field::r_order());
    }
    out.push(one);
    let mut i: usize = 0;
    while i < max_degree
        invariant
            out@.len() == i + 1,
            i <= max_degree,
            max_degree < usize::MAX,
            forall|k: int|
                0 <= k < out@.len() ==> scalar_v(out@[k]) == fpow(scalar_v(*scalar), k as nat),
        decreases max_degree - i,
    {
        let next = s_mul(&out[i], scalar);
        proof {
            lemma_fmul_comm(scalar_v(out@[i as int]), scalar_v(*scalar));
        }
        out.push(next);
        i += 1;
    }
    out
}

/// The ordered powers of the secret scalar applied to a base point: what a
/// prover commits with.
pub struct CommitKey {
    pub powers_of_g: Vec<G1Affine>,
}

impl CommitKey {
    /// The largest polynomial degree this key can commit to.
    pub fn max_degree(&self) -> (r: usize)
        requires
            self.powers_of_g@.len() >= 1,
        ensures
            r == self.powers_of_g@.len() - 1,
    {
        self.powers_of_g.len() - 1
    }

    /// The element-wise-identical prefix of this key holding degrees
    /// 0 through `truncated_degree`; fails if that exceeds the configured
    /// maximum.
    pub fn truncate(&self, truncated_degree: usize) -> (r: Result<CommitKey, Error>)
        requires
            self.powers_of_g@.len() >= 1,
        ensures
            truncated_degree + 1 > self.powers_of_g@.len() ==> r == Result::<
                CommitKey,
                Error,
            >::Err(Error::TruncatedDegreeTooLarge),
            truncated_degree + 1 <= self.powers_of_g@.len() ==> r is Ok
                && r->Ok_0.powers_of_g@ == self.powers_of_g@.subrange(
                0,
                truncated_degree + 1,
            ),
    {
        if truncated_degree > self.powers_of_g.len() - 1 {
            return Err(Error::TruncatedDegreeTooLarge);
        }
        let end: usize = truncated_degree + 1;
        let mut prefix: Vec<G1Affine> = Vec::new();
        let mut i: usize = 0;
        while i < end
            invariant
                end == truncated_degree + 1,
                prefix@.len() == i,
                i <= end,
                end <= self.powers_of_g@.len(),
                forall|k: int| 0 <= k < i ==> prefix@[k] == self.powers_of_g@[k],
            decreases end - i,
        {
            prefix.push(g1_affine_clone(&self.powers_of_g[i]));
            i += 1;
        }
        proof {
            assert(prefix@ =~= self.powers_of_g@.subrange(0, truncated_degree + 1));
        }
        Ok(CommitKey { powers_of_g: prefix })
    }
}

/// The three group elements a verifier needs for a pairing-based opening
/// check: the base generator, the second-group generator, and the
/// secret-scaled second-group generator.
pub struct OpeningKey {
    pub g: G1Affine,
    pub h: G2Affine,
    pub beta_h: G2Affine,
}

impl OpeningKey {
    /// A field-for-field copy of this key.
    pub fn duplicate(&self) -> (r: OpeningKey)
        ensures
            r == *self,
    {
        OpeningKey {
            g: g1_affine_clone(&self.g),
            h: g2_affine_clone(&self.h),
            beta_h: g2_affine_clone(&self.beta_h),
        }
    }
}


/// The parameters were derived from a base point, a second-group point
/// and a secret residue: the commitment key holds the affine forms of the
/// base point scaled by the successive powers of the secret, and the
/// opening key holds the two generators and the secret-scaled second.
pub open spec fn setup_built_from(
    pp: PublicParameters,
    gp: G1Projective,
    hp: G2Projective,
    bv: nat,
    max_degree: int,
) -> bool {
    &&& bv < r_order()
    &&& pp.commit_key.powers_of_g@.len() == max_degree + 1
    &&& forall|i: int|
        0 <= i <= max_degree ==> pp.commit_key.powers_of_g@[i] == g1_affine_of(
            #[trigger] g1_scale_of(gp, fpow(bv, i as nat)),
        )
    &&& pp.opening_key.g == g1_affine_of(gp)
    &&& pp.opening_key.h == g2_affine_of(hp)
    &&& pp.opening_key.beta_h == g2_affine_of(g2_scale_of(hp, bv))
}

/// The public parameters, also called the structured reference string:
/// everything derived from the secret scalar that prover and verifier need.
pub struct PublicParameters {
    pub commit_key: CommitKey,
    pub opening_key: OpeningKey,
}

impl PublicParameters {
    /// The untrimmed commitment key held by these parameters.
    pub fn commit_key(&self) -> (r: &CommitKey)
        ensures
            *r == self.commit_key,
    {
        &self.commit_key
    }

    /// The opening key held by these parameters.
    pub fn opening_key(&self) -> (r: &OpeningKey)
        ensures
            *r == self.opening_key,
    {
        &self.opening_key
    }

    /// Generates public parameters for polynomials up to and including
    /// `max_degree`, drawing the secret scalar and both generators from the
    /// given randomness source. Fails exactly when `max_degree` is zero,
    /// before any randomness is consumed; otherwise the commitment key holds
    /// exactly `max_degree + 1` points.
    pub fn setup<R: rand_core::RngCore + rand_core::CryptoRng>(
        max_degree: usize,
        rng: &mut R,
    ) -> (r: Result<PublicParameters, Error>)
        requires
            max_degree < usize::MAX,
        ensures
            max_degree < 1 ==> r == Result::<PublicParameters, Error>::Err(Error::DegreeIsZero),
            max_degree < 1 ==> *final(rng) == *old(rng),
            max_degree >= 1 ==> r is Ok && r->Ok_0.commit_key.powers_of_g@.len() == max_degree
                + 1,
            max_degree >= 1 ==> (exists|gp: G1Projective, hp: G2Projective, bv: nat|
                setup_built_from(r->Ok_0, gp, hp, bv, max_degree as int)),
    {
        if max_degree < 1 {
            return Err(Error::DegreeIsZero);
        }
        let beta = s_random(rng);
        let powers_of_beta = powers_of(&beta, max_degree);
        let g = g1_random(rng);
        let mut powers_of_g: Vec<bls12_381::G1Projective> = Vec::new();
        let mut i: usize = 0;
        while i < powers_of_beta.len()
            invariant
                powers_of_g@.len() == i,
                i <= powers_of_beta@.len(),
                forall|k: int|
                    0 <= k < powers_of_beta@.len() ==> scalar_v(#[trigger] powers_of_beta@[k])
                        == fpow(scalar_v(beta), k as nat),
                forall|k: int|
                    0 <= k < i ==> #[trigger] powers_of_g@[k] == g1_scale_of(
                        g,
                        fpow(scalar_v(beta), k as nat),
                    ),
            decreases powers_of_beta@.len() - i,
        {
            powers_of_g.push(g1_scale(&g, &powers_of_beta[i]));
            i += 1;
        }
        let normalised_g = g1_batch_normalize(&powers_of_g);
        let h = g2_random(rng);
        let beta_h = g2_scale(&h, &beta);
        let result = PublicParameters {
            commit_key: CommitKey { powers_of_g: normalised_g },
            opening_key: OpeningKey {
                g: g1_to_affine(&g),
                h: g2_to_affine(&h),
                beta_h: g2_to_affine(&beta_h),
            },
        };
        proof {
            assert forall|k: int|
                0 <= k <= max_degree implies result.commit_key.powers_of_g@[k] == g1_affine_of(
                #[trigger] g1_scale_of(g, fpow(scalar_v(beta), k as nat)),
            ) by {
                assert(powers_of_g@[k] == g1_scale_of(g, fpow(scalar_v(beta), k as nat)));
                assert(normalised_g@[k] == g1_affine_of(powers_of_g@[k]));
            }
            assert(setup_built_from(result, g, h, scalar_v(beta), max_degree as int));
        }
        Ok(result)
    }

    /// Truncates the parameters so the prover can commit to polynomials up
    /// to and including `truncated_degree`: the returned commitment key is
    /// the element-wise-identical prefix of the untrimmed one, and the
    /// opening key is returned unchanged. Fails exactly when
    /// `truncated_degree` exceeds the configured maximum.
    pub fn trim(&self, truncated_degree: usize) -> (r: Result<(CommitKey, OpeningKey), Error>)
        requires
            self.commit_key.powers_of_g@.len() >= 1,
        ensures
            truncated_degree + 1 > self.commit_key.powers_of_g@.len() ==> r is Err && r->Err_0
                == Error::TruncatedDegreeTooLarge,
            truncated_degree + 1 <= self.commit_key.powers_of_g@.len() ==> r is Ok && (
            r->Ok_0).0.powers_of_g@ == self.commit_key.powers_of_g@.subrange(
                0,
                truncated_degree + 1,
            ) && (r->Ok_0).1 == self.opening_key,
    {
        let truncated_prover_key = match self.commit_key.truncate(truncated_degree) {
            Ok(key) => key,
            Err(e) => {
                return Err(e);
            },
        };
        let opening_key = self.opening_key.duplicate();
        Ok((truncated_prover_key, opening_key))
    }

    /// The largest polynomial degree this reference string can commit to.
    pub fn max_degree(&self) -> (r: usize)
        requires
            self.commit_key.powers_of_g@.len() >= 1,
        ensures
            r == self.commit_key.powers_of_g@.len() - 1,
    {
        self.commit_key.max_degree()
    }
}

} // verus!
