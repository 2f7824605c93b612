//! A conjunction of pairing equalities `e(a_i, b_i) = e(c_i, d_i)` checked
//! with one final comparison: each equality enters with a fresh random weight
//! on its G1 sides, and the weighted sides are summed.
use crate::curve::{
    g1_add, g1_add_of, g1_affine_of, g1_mul, g1_smul, g1_proj_zero, g1_to_affine, g2_add,
    g2_add_mixed, g2_add_mixed_of, g2_add_of, g2_affine_of, g2_proj_zero, g2_to_affine, pairing_eq,
    pairing_eq_of, G1Point, G1Proj, G1ProjView, G1View, G2Point, G2Proj, G2ProjView, G2View,
};
use crate::field::{fr_modulus, random_scalar, Scalar};
use vstd::prelude::*;

verus! {

/// The running sums of the two sides, each a pair of a G1 and a G2 point.
pub struct BatchPairingCheck {
    pub lhs: (G1Proj, G2Proj),
    pub rhs: (G1Proj, G2Proj),
}

pub type PairView = (G1ProjView, G2ProjView);

/// The two sides after adding `(f a, b)` to the left and `(f c, d)` to the right.
pub open spec fn sides_after_check(
    s: (PairView, PairView),
    lhs: (G1View, G2View),
    rhs: (G1View, G2View),
    f: nat,
) -> (PairView, PairView) {
    (
        (g1_add_of(s.0.0, g1_smul(lhs.0, f)), g2_add_mixed_of(s.0.1, lhs.1)),
        (g1_add_of(s.1.0, g1_smul(rhs.0, f)), g2_add_mixed_of(s.1.1, rhs.1)),
    )
}

impl BatchPairingCheck {
    pub open spec fn wf(&self) -> bool {
        self.lhs.0.wf() && self.lhs.1.wf() && self.rhs.0.wf() && self.rhs.1.wf()
    }

    pub open spec fn sides(&self) -> (PairView, PairView) {
        ((self.lhs.0@, self.lhs.1@), (self.rhs.0@, self.rhs.1@))
    }

    /// An empty accumulator: all four sums are the identity, so its check accepts.
    pub fn new() -> (r: BatchPairingCheck)
        ensures
            r.wf(),
            r.sides() == ((g1_proj_zero(), g2_proj_zero()), (g1_proj_zero(), g2_proj_zero())),
    {
        BatchPairingCheck { lhs: (G1Proj::zero(), G2Proj::zero()), rhs: (G1Proj::zero(), G2Proj::zero()) }
    }

    /// Adds `e(lhs.0, lhs.1) = e(rhs.0, rhs.1)` with the weight `factor`.
    pub fn add_check_with(&mut self, lhs: (G1Point, G2Point), rhs: (G1Point, G2Point), factor: &Scalar)
        requires
            old(self).wf(),
            lhs.0.wf() && lhs.1.wf() && rhs.0.wf() && rhs.1.wf(),
            factor.wf(),
        ensures
            final(self).wf(),
            final(self).sides() == sides_after_check(old(self).sides(), (lhs.0@, lhs.1@), (rhs.0@, rhs.1@), factor@),
    {
        self.lhs.0 = g1_add(&self.lhs.0, &g1_mul(&lhs.0, factor));
        self.lhs.1 = g2_add_mixed(&self.lhs.1, &lhs.1);
        self.rhs.0 = g1_add(&self.rhs.0, &g1_mul(&rhs.0, factor));
        self.rhs.1 = g2_add_mixed(&self.rhs.1, &rhs.1);
    }

    /// Adds `e(lhs.0, lhs.1) = e(rhs.0, rhs.1)` with a fresh uniform random weight.
    pub fn add_check(&mut self, lhs: (G1Point, G2Point), rhs: (G1Point, G2Point))
        requires
            old(self).wf(),
            lhs.0.wf() && lhs.1.wf() && rhs.0.wf() && rhs.1.wf(),
        ensures
            final(self).wf(),
            exists|f: nat| f < fr_modulus()
                && final(self).sides() == sides_after_check(old(self).sides(), (lhs.0@, lhs.1@), (rhs.0@, rhs.1@), f),
    {
        let factor = random_scalar();
        self.add_check_with(lhs, rhs, &factor);
    }

    /// Adds the sums of `other` to these, side by side.
    pub fn merge(&mut self, other: BatchPairingCheck)
        requires
            old(self).wf(),
            other.wf(),
        ensures
            final(self).wf(),
            final(self).sides() == (
                (g1_add_of(old(self).lhs.0@, other.lhs.0@), g2_add_of(old(self).lhs.1@, other.lhs.1@)),
                (g1_add_of(old(self).rhs.0@, other.rhs.0@), g2_add_of(old(self).rhs.1@, other.rhs.1@)),
            ),
    {
        self.lhs.0 = g1_add(&self.lhs.0, &other.lhs.0);
        self.lhs.1 = g2_add(&self.lhs.1, &other.lhs.1);
        self.rhs.0 = g1_add(&self.rhs.0, &other.rhs.0);
        self.rhs.1 = g2_add(&self.rhs.1, &other.rhs.1);
    }

    /// Whether `e(lhs) = e(rhs)` on the accumulated sums.
    pub fn check(self) -> (r: bool)
        requires
            self.wf(),
        ensures
            r == pairing_eq_of(
                g1_affine_of(self.lhs.0@),
                g2_affine_of(self.lhs.1@),
                g1_affine_of(self.rhs.0@),
                g2_affine_of(self.rhs.1@),
            ),
            self.lhs.0@ == self.rhs.0@ && self.lhs.1@ == self.rhs.1@ ==> r,
    {
        pairing_eq(
            &g1_to_affine(&self.lhs.0),
            &g2_to_affine(&self.lhs.1),
            &g1_to_affine(&self.rhs.0),
            &g2_to_affine(&self.rhs.1),
        )
    }
}

} // verus!
