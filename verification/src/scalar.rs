//! Trusted boundary to the `bls12_381` scalar-field type.
//!
//! Every value of `bls12_381::Scalar` is a canonical residue modulo the
//! scalar-field order; `scalar_v` names the residue a value stands for, and
//! each wrapper below relates the crate's arithmetic to the model in
//! `field`.
use vstd::prelude::*;
use bls12_381::Scalar;
use crate::field::{fadd, fsub, fmul, fneg, fpow, r_order};

verus! {

#[verifier::external_type_specification]
#[verifier::external_body]
pub struct ExScalar(Scalar);

/// The field residue a `Scalar` value stands for.
pub uninterp spec fn scalar_v(s: Scalar) -> nat;

/// Relies on bls12_381::Scalar::zero: the additive identity.
#[verifier::external_body]
pub(crate) fn s_zero() -> (r: Scalar)
    ensures
        scalar_v(r) == 0,
{
    Scalar::zero()
}

/// Relies on bls12_381::Scalar::one: the multiplicative identity.
#[verifier::external_body]
pub(crate) fn s_one() -> (r: Scalar)
    ensures
        scalar_v(r) == 1,
{
    Scalar::one()
}

/// Relies on From<u64> for bls12_381::Scalar: embeds an integer below the
/// field order unchanged.
#[verifier::external_body]
pub(crate) fn s_from_u64(x: u64) -> (r: Scalar)
    ensures
        scalar_v(r) == (x as nat) % r_order(),
{
    Scalar::from(x)
}

/// Relies on Add for bls12_381::Scalar: field addition.
#[verifier::external_body]
pub(crate) fn s_add(a: &Scalar, b: &Scalar) -> (r: Scalar)
    ensures
        scalar_v(r) == fadd(scalar_v(*a), scalar_v(*b)),
{
    a + b
}

/// Relies on Sub for bls12_381::Scalar: field subtraction.
#[verifier::external_body]
pub(crate) fn s_sub(a: &Scalar, b: &Scalar) -> (r: Scalar)
    ensures
        scalar_v(r) == fsub(scalar_v(*a), scalar_v(*b)),
{
    a - b
}

/// Relies on Mul for bls12_381::Scalar: field multiplication.
#[verifier::external_body]
pub(crate) fn s_mul(a: &Scalar, b: &Scalar) -> (r: Scalar)
    ensures
        scalar_v(r) == fmul(scalar_v(*a), scalar_v(*b)),
{
    a * b
}

/// Relies on Neg for bls12_381::Scalar: field negation.
#[verifier::external_body]
pub(crate) fn s_neg(a: &Scalar) -> (r: Scalar)
    ensures
        scalar_v(r) == fneg(scalar_v(*a)),
{
    -a
}

/// Relies on bls12_381::Scalar::pow: exponentiation by a little-endian
/// 256-bit exponent; called here with a single limb.
#[verifier::external_body]
pub(crate) fn s_pow_u64(b: &Scalar, e: u64) -> (r: Scalar)
    ensures
        scalar_v(r) == fpow(scalar_v(*b), e as nat),
{
    b.pow(&[e, 0, 0, 0])
}

/// Relies on bls12_381::Scalar::invert: the multiplicative inverse, which
/// exists exactly for nonzero elements.
#[verifier::external_body]
pub(crate) fn s_invert(a: &Scalar) -> (r: Option<Scalar>)
    ensures
        r is Some <==> scalar_v(*a) != 0,
        r is Some ==> fmul(scalar_v(*a), scalar_v(r->0)) == 1 && scalar_v(r->0) < r_order(),
{
    Option::<Scalar>::from(a.invert())
}

/// Relies on PartialEq for bls12_381::Scalar: values are canonical, so
/// representations are equal exactly when the residues are.
#[verifier::external_body]
pub(crate) fn s_eq(a: &Scalar, b: &Scalar) -> (r: bool)
    ensures
        r <==> scalar_v(*a) == scalar_v(*b),
{
    a == b
}

/// Relies on Copy for bls12_381::Scalar: a plain copy of the limbs.
#[verifier::external_body]
pub(crate) fn s_clone(a: &Scalar) -> (r: Scalar)
    ensures
        scalar_v(r) == scalar_v(*a),
{
    *a
}

/// Relies on ff::Field::random for bls12_381::Scalar: a residue drawn from
/// the caller's randomness source; nothing is promised of which one.
#[verifier::external_body]
pub(crate) fn s_random<R: rand_core::RngCore + rand_core::CryptoRng>(rng: &mut R) -> (r: Scalar)
    ensures
        scalar_v(r) < r_order(),
{
    <Scalar as ff::Field>::random(rng)
}

/// Relies on ff::PrimeField::ROOT_OF_UNITY for bls12_381::Scalar: a fixed
/// 2^32-th root of unity (the crate documents `ROOT_OF_UNITY` as
/// `GENERATOR^t` with `t` odd and `t * 2^32 + 1` the field order).
#[verifier::external_body]
pub(crate) fn s_root_of_unity() -> (r: Scalar)
    ensures
        scalar_v(r) < r_order(),
        fpow(scalar_v(r), 0x1_0000_0000nat) == 1,
{
    <Scalar as ff::PrimeField>::ROOT_OF_UNITY
}

} // verus!
