use bls12_381::Scalar;
use plonk_core::error::Error;
use plonk_core::srs::{powers_of, PublicParameters};
use rand::rngs::StdRng;
use rand::SeedableRng;

#[test]
fn test_powers_of() {
    let x = Scalar::from(10u64);
    let degree = 100u64;

    let powers_of_x = powers_of(&x, degree as usize);

    for (i, x_i) in powers_of_x.iter().enumerate() {
        assert_eq!(*x_i, x.pow(&[i as u64, 0, 0, 0]))
    }

    let last_element = powers_of_x.last().unwrap();
    assert_eq!(*last_element, x.pow(&[degree, 0, 0, 0]))
}

#[test]
fn setup_commit_key_length() {
    let mut rng = StdRng::seed_from_u64(42);
    let pp = PublicParameters::setup(10, &mut rng).unwrap();
    assert_eq!(pp.commit_key().powers_of_g.len(), 11);
    assert_eq!(pp.max_degree(), 10);
}

#[test]
fn setup_degree_zero_rejected() {
    let mut rng = StdRng::seed_from_u64(7);
    let res = PublicParameters::setup(0, &mut rng);
    assert!(matches!(res, Err(Error::DegreeIsZero)));
}

#[test]
fn trim_returns_identical_prefix() {
    let mut rng = StdRng::seed_from_u64(99);
    let pp = PublicParameters::setup(7, &mut rng).unwrap();
    let (ck, ok_key) = pp.trim(3).unwrap();
    assert_eq!(ck.powers_of_g.len(), 4);
    for i in 0..4 {
        assert_eq!(ck.powers_of_g[i], pp.commit_key().powers_of_g[i]);
    }
    assert_eq!(ck.max_degree(), 3);
    assert_eq!(ok_key.g, pp.opening_key().g);
    assert_eq!(ok_key.h, pp.opening_key().h);
    assert_eq!(ok_key.beta_h, pp.opening_key().beta_h);
}

#[test]
fn trim_beyond_maximum_rejected() {
    let mut rng = StdRng::seed_from_u64(5);
    let pp = PublicParameters::setup(7, &mut rng).unwrap();
    let res = pp.trim(8);
    assert!(matches!(res, Err(Error::TruncatedDegreeTooLarge)));
}
