//! Random scalars and random points of the subgroups.
use crate::curve::{
    g1_affine_of, g1_generator, g1_mul, g1_smul, g1_to_affine, g2_affine_of, g2_generator,
    g2_mul, g2_smul, g2_to_affine, G1Point, G2Point,
};
use crate::field::{fr_modulus, random_scalar, Scalar};
use vstd::prelude::*;

verus! {

/// A uniformly random scalar.
pub fn rand_fr() -> (r: Scalar)
    ensures
        r.wf(),
{
    random_scalar()
}

/// A random multiple of the G1 generator.
pub fn rand_g1() -> (r: G1Point)
    ensures
        r.wf(),
        exists|s: nat| s < fr_modulus() && r@ == g1_affine_of(g1_smul(g1_generator(), s)),
{
    let s = rand_fr();
    g1_to_affine(&g1_mul(&G1Point::generator(), &s))
}

/// A random multiple of the G2 generator.
pub fn rand_g2() -> (r: G2Point)
    ensures
        r.wf(),
        exists|s: nat| s < fr_modulus() && r@ == g2_affine_of(g2_smul(g2_generator(), s)),
{
    let s = rand_fr();
    g2_to_affine(&g2_mul(&G2Point::generator(), &s))
}

} // verus!
