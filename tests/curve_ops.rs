use ark_bls12_381::{Fq as ArkFq, Fr, G1Affine, G1Projective, G2Affine};
use ark_ec::{AffineCurve, ProjectiveCurve};
use ark_ff::{BigInteger256, BigInteger384, FromBytes, PrimeField, UniformRand};
use kzg_ceremony_crypto::{
    g1_endomorphism, g1_mul_glv, g1_split, g1_subgroup_check, g2_subgroup_check, rand_fr, rand_g1,
    rand_g2, Fq, Fq2, G1Point, G1Proj, G2Point, Scalar, G1_LAMBDA_2,
};

fn fq_to_ark(a: &Fq) -> ArkFq {
    let mut le = a.be;
    le.reverse();
    ArkFq::from_repr(BigInteger384::read(&le[..]).unwrap()).unwrap()
}

fn fq_from_ark(a: &ArkFq) -> Fq {
    let v = ark_ff::BigInteger::to_bytes_be(&a.into_repr());
    let mut be = [0u8; 48];
    be.copy_from_slice(&v);
    Fq { be }
}

fn g1_to_ark(p: &G1Point) -> G1Affine {
    G1Affine::new(fq_to_ark(&p.x), fq_to_ark(&p.y), p.infinity)
}

fn g1_from_ark(p: &G1Affine) -> G1Point {
    G1Point { x: fq_from_ark(&p.x), y: fq_from_ark(&p.y), infinity: p.infinity }
}

fn g1_proj_to_ark(p: &G1Proj) -> G1Projective {
    G1Projective::new(fq_to_ark(&p.x), fq_to_ark(&p.y), fq_to_ark(&p.z))
}

fn g2_from_ark(p: &G2Affine) -> G2Point {
    let f = |c: &ark_bls12_381::Fq2| Fq2 { c0: fq_from_ark(&c.c0), c1: fq_from_ark(&c.c1) };
    G2Point { x: f(&p.x), y: f(&p.y), infinity: p.infinity }
}

fn fr_to_ark(s: &Scalar) -> Fr {
    Fr::from_repr(BigInteger256(s.limbs)).unwrap()
}

fn fr_from_ark(s: &Fr) -> Scalar {
    Scalar { limbs: s.into_repr().0 }
}

#[test]
fn test_g1_endomorphism() {
    let x = rand_g1();

    let expected = g1_to_ark(&x)
        .mul(BigInteger256([G1_LAMBDA_2[0], G1_LAMBDA_2[1], 0, 0]))
        .into_affine();
    let expected = -expected;
    let value = g1_to_ark(&g1_endomorphism(&x));
    assert_eq!(value, expected);
}

#[test]
fn test_g1_split() {
    let x = rand_fr();
    let (k0, k1) = g1_split(&x);
    let lambda = Fr::from_repr(BigInteger256([G1_LAMBDA_2[0], G1_LAMBDA_2[1], 0, 0])).unwrap();
    let value = Fr::from(k0) + Fr::from(k1) * lambda;
    assert_eq!(value, fr_to_ark(&x));
}

#[test]
fn test_g1_mul_glv() {
    let p = rand_g1();
    let s = rand_fr();
    let expected = g1_to_ark(&p).mul(fr_to_ark(&s));
    let value = g1_proj_to_ark(&g1_mul_glv(&p, &s));
    assert_eq!(value, expected);
}

#[test]
fn glv_matches_plain_multiplication_on_random_inputs() {
    for _ in 0..20 {
        let p = rand_g1();
        let s = rand_fr();
        let expected = g1_to_ark(&p).mul(fr_to_ark(&s)).into_affine();
        assert_eq!(g1_proj_to_ark(&g1_mul_glv(&p, &s)).into_affine(), expected);
    }
}

#[test]
fn glv_matches_plain_multiplication_on_edge_scalars() {
    let p = rand_g1();
    let minus_one = -Fr::from(1u64);
    for s in [Fr::from(0u64), Fr::from(1u64), Fr::from(2u64), minus_one] {
        let expected = g1_to_ark(&p).mul(s).into_affine();
        let value = g1_proj_to_ark(&g1_mul_glv(&p, &fr_from_ark(&s))).into_affine();
        assert_eq!(value, expected);
    }
    let zero = G1Point::identity();
    let value = g1_proj_to_ark(&g1_mul_glv(&zero, &rand_fr())).into_affine();
    assert!(value.infinity);
}

#[test]
fn split_halves_fit_and_recombine_for_largest_scalar() {
    let s = fr_from_ark(&-Fr::from(1u64));
    let (k0, k1) = g1_split(&s);
    let lambda = u128::from(G1_LAMBDA_2[0]) | (u128::from(G1_LAMBDA_2[1]) << 64);
    assert!(k0 < lambda);
    let value = Fr::from(k0) + Fr::from(k1) * Fr::from(lambda);
    assert_eq!(value, -Fr::from(1u64));
}

#[test]
fn subgroup_check_accepts_generator_multiples() {
    assert!(g1_subgroup_check(&G1Point::generator()));
    assert!(g2_subgroup_check(&G2Point::generator()));
    assert!(g1_subgroup_check(&G1Point::identity()));
    assert!(g2_subgroup_check(&G2Point::identity()));
    for _ in 0..5 {
        assert!(g1_subgroup_check(&rand_g1()));
        assert!(g2_subgroup_check(&rand_g2()));
    }
}

#[test]
fn subgroup_check_rejects_curve_points_outside_the_subgroup() {
    let mut found_g1 = 0;
    let mut x = 1u64;
    while found_g1 < 3 {
        if let Some(p) = G1Affine::get_point_from_x(ArkFq::from(x), false) {
            assert!(!p.is_in_correct_subgroup_assuming_on_curve());
            assert!(!g1_subgroup_check(&g1_from_ark(&p)));
            found_g1 += 1;
        }
        x += 1;
    }
    let mut found_g2 = 0;
    let mut x = 1u64;
    while found_g2 < 3 {
        let fx = ark_bls12_381::Fq2::new(ArkFq::from(x), ArkFq::from(1u64));
        if let Some(p) = G2Affine::get_point_from_x(fx, true) {
            assert!(!p.is_in_correct_subgroup_assuming_on_curve());
            assert!(!g2_subgroup_check(&g2_from_ark(&p)));
            found_g2 += 1;
        }
        x += 1;
    }
}

#[test]
fn subgroup_check_rejects_the_order_three_point() {
    let p = G1Affine::get_point_from_x(ArkFq::from(0u64), true).unwrap();
    assert!(!g1_subgroup_check(&g1_from_ark(&p)));
}

#[test]
fn generators_match_arkworks() {
    assert_eq!(g1_to_ark(&G1Point::generator()), G1Affine::prime_subgroup_generator());
    assert_eq!(G2Point::generator(), g2_from_ark(&G2Affine::prime_subgroup_generator()));
}

#[test]
fn random_scalar_is_canonical_and_varies() {
    let a = rand_fr();
    let b = rand_fr();
    assert_ne!(a, b);
    assert_eq!(fr_from_ark(&fr_to_ark(&a)), a);
    let _ = Fr::rand(&mut rand::thread_rng());
}
