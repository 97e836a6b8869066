//! Trusted boundary to the `bls12_381` curve groups. Group elements are
//! opaque here: the reference-string contracts are about which elements are
//! kept and in what order, never about curve arithmetic itself.
use vstd::prelude::*;
use bls12_381::{G1Affine, G1Projective, G2Affine, G2Projective, Scalar};
use crate::scalar::scalar_v;

verus! {

/// The G1 point obtained by scaling a point by the scalar with the given
/// residue: scalar multiplication is a function of the point and the
/// residue alone.
pub uninterp spec fn g1_scale_of(p: G1Projective, k: nat) -> G1Projective;

/// The G2 point obtained by scaling a point by the scalar with the given
/// residue.
pub uninterp spec fn g2_scale_of(p: G2Projective, k: nat) -> G2Projective;

/// The canonical affine form of a G1 point (the identity included).
pub uninterp spec fn g1_affine_of(p: G1Projective) -> G1Affine;

/// The canonical affine form of a G2 point.
pub uninterp spec fn g2_affine_of(p: G2Projective) -> G2Affine;

#[verifier::external_type_specification]
#[verifier::external_body]
pub struct ExG1Affine(G1Affine);

#[verifier::external_type_specification]
#[verifier::external_body]
pub struct ExG1Projective(G1Projective);

#[verifier::external_type_specification]
#[verifier::external_body]
pub struct ExG2Affine(G2Affine);

#[verifier::external_type_specification]
#[verifier::external_body]
pub struct ExG2Projective(G2Projective);

/// Relies on group::Group::random for G1Projective: a point drawn from the
/// caller's randomness source; nothing is promised of which one.
#[verifier::external_body]
pub(crate) fn g1_random<R: rand_core::RngCore + rand_core::CryptoRng>(rng: &mut R) -> G1Projective {
    <G1Projective as group::Group>::random(rng)
}

/// Relies on group::Group::random for G2Projective.
#[verifier::external_body]
pub(crate) fn g2_random<R: rand_core::RngCore + rand_core::CryptoRng>(rng: &mut R) -> G2Projective {
    <G2Projective as group::Group>::random(rng)
}

/// Relies on Mul<&Scalar> for &G1Projective: scalar multiplication, a
/// deterministic function of the point and the scalar's residue.
#[verifier::external_body]
pub(crate) fn g1_scale(p: &G1Projective, s: &Scalar) -> (r: G1Projective)
    ensures
        r == g1_scale_of(*p, scalar_v(*s)),
{
    p * s
}

/// Relies on Mul<&Scalar> for &G2Projective: scalar multiplication, a
/// deterministic function of the point and the scalar's residue.
#[verifier::external_body]
pub(crate) fn g2_scale(p: &G2Projective, s: &Scalar) -> (r: G2Projective)
    ensures
        r == g2_scale_of(*p, scalar_v(*s)),
{
    p * s
}

/// Relies on G1Projective::batch_normalize: converts every point to its
/// canonical affine form, index-aligned with the input; its per-point
/// result agrees with From<&G1Projective>, identities included.
#[verifier::external_body]
pub(crate) fn g1_batch_normalize(p: &Vec<G1Projective>) -> (r: Vec<G1Affine>)
    ensures
        r@.len() == p@.len(),
        forall|i: int| 0 <= i < p@.len() ==> r@[i] == g1_affine_of(#[trigger] p@[i]),
{
    let mut out = vec![G1Affine::identity(); p.len()];
    G1Projective::batch_normalize(p, &mut out);
    out
}

/// Relies on From<&G1Projective> for G1Affine: the canonical affine form
/// of a point.
#[verifier::external_body]
pub(crate) fn g1_to_affine(p: &G1Projective) -> (r: G1Affine)
    ensures
        r == g1_affine_of(*p),
{
    G1Affine::from(p)
}

/// Relies on From<&G2Projective> for G2Affine: the canonical affine form
/// of a point.
#[verifier::external_body]
pub(crate) fn g2_to_affine(p: &G2Projective) -> (r: G2Affine)
    ensures
        r == g2_affine_of(*p),
{
    G2Affine::from(p)
}

/// Relies on Copy for G1Affine: a plain copy of the coordinates.
#[verifier::external_body]
pub(crate) fn g1_affine_clone(p: &G1Affine) -> (r: G1Affine)
    ensures
        r == *p,
{
    *p
}

/// Relies on Copy for G2Affine: a plain copy of the coordinates.
#[verifier::external_body]
pub(crate) fn g2_affine_clone(p: &G2Affine) -> (r: G2Affine)
    ensures
        r == *p,
{
    *p
}

} // verus!
