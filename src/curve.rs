//! Points of G1 and G2 as plain values, and the group operations of arkworks
//! behind wrappers.
use crate::field::{
    be_val, fq2_add, fq2_mul, fq_add, fq_from_ark, fq_modulus, fq_mul, fq_neg, fq_neg_exec, fq_to_ark,
    fr_to_ark, Fq, Fq2, Scalar,
};
use crate::constants::{
    g1_gen_x, g1_gen_x_bytes, g1_gen_y, g1_gen_y_bytes, g2_gen_x0, g2_gen_x0_bytes, g2_gen_x1,
    g2_gen_x1_bytes, g2_gen_y0, g2_gen_y0_bytes, g2_gen_y1, g2_gen_y1_bytes,
};
use ark_bls12_381::{
    Bls12_381 as Bls12, Fq2 as ArkFq2, G1Affine as ArkG1, G1Projective as ArkG1Proj, G2Affine as ArkG2,
    G2Projective as ArkG2Proj,
};
use ark_ec::{AffineCurve, PairingEngine, ProjectiveCurve};
use ark_ff::PrimeField;
use vstd::prelude::*;

verus! {

/// An affine point of G1; the identity is `(0, 1)` with the infinity flag set.
#[derive(Clone, Copy, Debug, PartialEq, Eq)]
pub struct G1Point {
    pub x: Fq,
    pub y: Fq,
    pub infinity: bool,
}

/// A point of G1 in Jacobian coordinates `(X, Y, Z)`, standing for
/// `(X/Z^2, Y/Z^3)`; `Z = 0` is the identity.
#[derive(Clone, Copy, Debug, PartialEq, Eq)]
pub struct G1Proj {
    pub x: Fq,
    pub y: Fq,
    pub z: Fq,
}

/// An affine point of G2 over Fq2; the identity is `(0, 1)` with the infinity flag set.
#[derive(Clone, Copy, Debug, PartialEq, Eq)]
pub struct G2Point {
    pub x: Fq2,
    pub y: Fq2,
    pub infinity: bool,
}

/// A point of G2 in Jacobian coordinates.
#[derive(Clone, Copy, Debug, PartialEq, Eq)]
pub struct G2Proj {
    pub x: Fq2,
    pub y: Fq2,
    pub z: Fq2,
}

pub type G1View = (nat, nat, bool);

pub type G1ProjView = (nat, nat, nat);

pub type G2View = ((nat, nat), (nat, nat), bool);

pub type G2ProjView = ((nat, nat), (nat, nat), (nat, nat));

impl View for G1Point {
    type V = G1View;

    open spec fn view(&self) -> G1View {
        (self.x@, self.y@, self.infinity)
    }
}

impl View for G1Proj {
    type V = G1ProjView;

    open spec fn view(&self) -> G1ProjView {
        (self.x@, self.y@, self.z@)
    }
}

impl View for G2Point {
    type V = G2View;

    open spec fn view(&self) -> G2View {
        (self.x@, self.y@, self.infinity)
    }
}

impl View for G2Proj {
    type V = G2ProjView;

    open spec fn view(&self) -> G2ProjView {
        (self.x@, self.y@, self.z@)
    }
}

impl G1Point {
    pub open spec fn wf(&self) -> bool {
        self.x.wf() && self.y.wf()
    }
}

impl G1Proj {
    pub open spec fn wf(&self) -> bool {
        self.x.wf() && self.y.wf() && self.z.wf()
    }
}

impl G2Point {
    pub open spec fn wf(&self) -> bool {
        self.x.wf() && self.y.wf()
    }
}

impl G2Proj {
    pub open spec fn wf(&self) -> bool {
        self.x.wf() && self.y.wf() && self.z.wf()
    }
}

impl G1Point {
    /// The identity `(0, 1, infinity)`.
    pub fn identity() -> (r: G1Point)
        ensures
            r.wf(),
            r@ == (0nat, 1nat, true),
    {
        G1Point { x: Fq::zero(), y: Fq::one(), infinity: true }
    }

    /// The standard generator of G1.
    pub fn generator() -> (r: G1Point)
        ensures
            r.wf(),
            r.x.be@ == g1_gen_x_bytes(),
            r.y.be@ == g1_gen_y_bytes(),
            !r.infinity,
            r@ == g1_generator(),
    {
        G1Point { x: g1_gen_x(), y: g1_gen_y(), infinity: false }
    }

    /// `-P`: `(x, -y)`, and the identity for the identity.
    pub fn neg(&self) -> (r: G1Point)
        requires
            self.wf(),
        ensures
            r.wf(),
            r@ == g1_neg(self@),
    {
        if self.infinity {
            *self
        } else {
            G1Point { x: self.x, y: fq_neg_exec(&self.y), infinity: false }
        }
    }
}

impl G1Proj {
    /// The identity `(1, 1, 0)`.
    pub fn zero() -> (r: G1Proj)
        ensures
            r.wf(),
            r@ == g1_proj_zero(),
    {
        G1Proj { x: Fq::one(), y: Fq::one(), z: Fq::zero() }
    }

    pub fn neg(&self) -> (r: G1Proj)
        requires
            self.wf(),
        ensures
            r.wf(),
            r@ == g1_proj_neg(self@),
    {
        if self.z.is_zero() {
            *self
        } else {
            G1Proj { x: self.x, y: fq_neg_exec(&self.y), z: self.z }
        }
    }
}

impl G2Point {
    /// The identity `(0, 1, infinity)`.
    pub fn identity() -> (r: G2Point)
        ensures
            r.wf(),
            r@ == ((0nat, 0nat), (1nat, 0nat), true),
    {
        G2Point {
            x: Fq2 { c0: Fq::zero(), c1: Fq::zero() },
            y: Fq2 { c0: Fq::one(), c1: Fq::zero() },
            infinity: true,
        }
    }

    /// The standard generator of G2.
    pub fn generator() -> (r: G2Point)
        ensures
            r.wf(),
            r.x.c0.be@ == g2_gen_x0_bytes(),
            r.x.c1.be@ == g2_gen_x1_bytes(),
            r.y.c0.be@ == g2_gen_y0_bytes(),
            r.y.c1.be@ == g2_gen_y1_bytes(),
            !r.infinity,
            r@ == g2_generator(),
    {
        G2Point {
            x: Fq2 { c0: g2_gen_x0(), c1: g2_gen_x1() },
            y: Fq2 { c0: g2_gen_y0(), c1: g2_gen_y1() },
            infinity: false,
        }
    }
}

impl G2Proj {
    /// The identity `(1, 1, 0)`.
    pub fn zero() -> (r: G2Proj)
        ensures
            r.wf(),
            r@ == g2_proj_zero(),
    {
        G2Proj {
            x: Fq2 { c0: Fq::one(), c1: Fq::zero() },
            y: Fq2 { c0: Fq::one(), c1: Fq::zero() },
            z: Fq2 { c0: Fq::zero(), c1: Fq::zero() },
        }
    }

    pub fn neg(&self) -> (r: G2Proj)
        requires
            self.wf(),
        ensures
            r.wf(),
            r@ == g2_proj_neg(self@),
    {
        if self.z.is_zero() {
            *self
        } else {
            G2Proj { x: self.x, y: Fq2 { c0: fq_neg_exec(&self.y.c0), c1: fq_neg_exec(&self.y.c1) }, z: self.z }
        }
    }
}

// ---------------------------------------------------------------------------
// Curve equations and exact relations.
/// `x^3 + 4`, the right-hand side of the G1 curve equation `y^2 = x^3 + 4`.
pub open spec fn g1_rhs(x: nat) -> nat {
    fq_add(fq_mul(fq_mul(x, x), x), 4)
}

/// `x^3 + 4(u + 1)`, the right-hand side of the G2 curve equation.
pub open spec fn g2_rhs(x: (nat, nat)) -> (nat, nat) {
    fq2_add(fq2_mul(fq2_mul(x, x), x), (4, 4))
}

pub open spec fn g1_on_curve(p: G1View) -> bool {
    p.2 || fq_mul(p.1, p.1) == g1_rhs(p.0)
}

pub open spec fn g2_on_curve(p: G2View) -> bool {
    p.2 || fq2_mul(p.1, p.1) == g2_rhs(p.0)
}

/// Whether a Jacobian point and an affine point are the same point.
pub open spec fn g1_same(a: G1ProjView, b: G1View) -> bool {
    if a.2 == 0 {
        b.2
    } else if b.2 {
        false
    } else {
        a.0 == fq_mul(b.0, fq_mul(a.2, a.2)) && a.1 == fq_mul(b.1, fq_mul(fq_mul(a.2, a.2), a.2))
    }
}

pub open spec fn g2_same(a: G2ProjView, b: G2View) -> bool {
    if a.2 == (0nat, 0nat) {
        b.2
    } else if b.2 {
        false
    } else {
        a.0 == fq2_mul(b.0, fq2_mul(a.2, a.2)) && a.1 == fq2_mul(b.1, fq2_mul(fq2_mul(a.2, a.2), a.2))
    }
}

/// `b` is the affine form of the Jacobian point `a`.
pub open spec fn g1_is_affine_of(b: G1View, a: G1ProjView) -> bool {
    if a.2 == 0 {
        b == (0nat, 1nat, true)
    } else {
        !b.2 && a.0 == fq_mul(b.0, fq_mul(a.2, a.2)) && a.1 == fq_mul(b.1, fq_mul(fq_mul(a.2, a.2), a.2))
    }
}

pub open spec fn g2_is_affine_of(b: G2View, a: G2ProjView) -> bool {
    if a.2 == (0nat, 0nat) {
        b == ((0nat, 0nat), (1nat, 0nat), true)
    } else {
        !b.2 && a.0 == fq2_mul(b.0, fq2_mul(a.2, a.2)) && a.1 == fq2_mul(b.1, fq2_mul(fq2_mul(a.2, a.2), a.2))
    }
}

pub open spec fn g1_proj_neg(a: G1ProjView) -> G1ProjView {
    if a.2 == 0 { a } else { (a.0, fq_neg(a.1), a.2) }
}

pub open spec fn g2_proj_neg(a: G2ProjView) -> G2ProjView {
    if a.2 == (0nat, 0nat) { a } else { (a.0, (fq_neg(a.1.0), fq_neg(a.1.1)), a.2) }
}

pub open spec fn g1_neg(a: G1View) -> G1View {
    if a.2 { a } else { (a.0, fq_neg(a.1), false) }
}

/// The standard generator of G1.
pub open spec fn g1_generator() -> G1View {
    (be_val(g1_gen_x_bytes()), be_val(g1_gen_y_bytes()), false)
}

/// The standard generator of G2.
pub open spec fn g2_generator() -> G2View {
    ((be_val(g2_gen_x0_bytes()), be_val(g2_gen_x1_bytes())), (be_val(g2_gen_y0_bytes()), be_val(g2_gen_y1_bytes())), false)
}

/// The Jacobian identity `(1, 1, 0)`.
pub open spec fn g1_proj_zero() -> G1ProjView {
    (1, 1, 0)
}

pub open spec fn g2_proj_zero() -> G2ProjView {
    ((1, 0), (1, 0), (0, 0))
}

// ---------------------------------------------------------------------------
// Names for what the group law of arkworks returns.
pub uninterp spec fn g1_double_of(a: G1ProjView) -> G1ProjView;

pub uninterp spec fn g1_add_mixed_of(a: G1ProjView, b: G1View) -> G1ProjView;

pub uninterp spec fn g1_add_of(a: G1ProjView, b: G1ProjView) -> G1ProjView;

pub uninterp spec fn g1_msm_of(bases: Seq<G1View>, scalars: Seq<nat>) -> G1ProjView;

pub uninterp spec fn g2_double_of(a: G2ProjView) -> G2ProjView;

pub uninterp spec fn g2_add_mixed_of(a: G2ProjView, b: G2View) -> G2ProjView;

pub uninterp spec fn g2_add_of(a: G2ProjView, b: G2ProjView) -> G2ProjView;

pub uninterp spec fn g2_msm_of(bases: Seq<G2View>, scalars: Seq<nat>) -> G2ProjView;

/// `[k]P` by double-and-add from the top bit, with the group law of arkworks.
pub open spec fn g1_smul(p: G1View, k: nat) -> G1ProjView
    decreases k,
{
    if k == 0 {
        g1_proj_zero()
    } else {
        let r = g1_double_of(g1_smul(p, k / 2));
        if k % 2 == 1 { g1_add_mixed_of(r, p) } else { r }
    }
}

/// `[k]P` on G2 by double-and-add from the top bit.
pub open spec fn g2_smul(p: G2View, k: nat) -> G2ProjView
    decreases k,
{
    if k == 0 {
        g2_proj_zero()
    } else {
        let r = g2_double_of(g2_smul(p, k / 2));
        if k % 2 == 1 { g2_add_mixed_of(r, p) } else { r }
    }
}

pub uninterp spec fn g1_affine_of(a: G1ProjView) -> G1View;

pub uninterp spec fn g2_affine_of(a: G2ProjView) -> G2View;

pub uninterp spec fn pairing_eq_of(a: G1View, b: G2View, c: G1View, d: G2View) -> bool;

// ---------------------------------------------------------------------------
// G1 wrappers.
/// Relies on `GroupProjective::double_in_place` of ark-ec, which leaves the
/// identity unchanged.
#[verifier::external_body]
pub fn g1_double(a: &G1Proj) -> (r: G1Proj)
    requires
        a.wf(),
    ensures
        r.wf(),
        r@ == g1_double_of(a@),
        a@.2 == 0 ==> r == *a,
{
    let mut p = ArkG1Proj::new(fq_to_ark(&a.x), fq_to_ark(&a.y), fq_to_ark(&a.z));
    p.double_in_place();
    G1Proj { x: fq_from_ark(&p.x), y: fq_from_ark(&p.y), z: fq_from_ark(&p.z) }
}

/// Relies on `GroupProjective::add_assign_mixed` of ark-ec, which returns the
/// first point unchanged when the second is the identity, and `(x, y, 1)` when
/// the first is the identity.
#[verifier::external_body]
pub fn g1_add_mixed(a: &G1Proj, b: &G1Point) -> (r: G1Proj)
    requires
        a.wf(),
        b.wf(),
    ensures
        r.wf(),
        r@ == g1_add_mixed_of(a@, b@),
        b.infinity ==> r == *a,
        !b.infinity && a@.2 == 0 ==> r@ == (b.x@, b.y@, 1nat),
{
    let mut p = ArkG1Proj::new(fq_to_ark(&a.x), fq_to_ark(&a.y), fq_to_ark(&a.z));
    p.add_assign_mixed(&ArkG1::new(fq_to_ark(&b.x), fq_to_ark(&b.y), b.infinity));
    G1Proj { x: fq_from_ark(&p.x), y: fq_from_ark(&p.y), z: fq_from_ark(&p.z) }
}

/// Relies on the `+=` of `GroupProjective` in ark-ec, which returns the other
/// point when either one is the identity.
#[verifier::external_body]
pub fn g1_add(a: &G1Proj, b: &G1Proj) -> (r: G1Proj)
    requires
        a.wf(),
        b.wf(),
    ensures
        r.wf(),
        r@ == g1_add_of(a@, b@),
        a@.2 == 0 ==> r == *b,
        a@.2 != 0 && b@.2 == 0 ==> r == *a,
{
    let mut p = ArkG1Proj::new(fq_to_ark(&a.x), fq_to_ark(&a.y), fq_to_ark(&a.z));
    p += ArkG1Proj::new(fq_to_ark(&b.x), fq_to_ark(&b.y), fq_to_ark(&b.z));
    G1Proj { x: fq_from_ark(&p.x), y: fq_from_ark(&p.y), z: fq_from_ark(&p.z) }
}

/// Relies on `AffineCurve::mul` of ark-ec: from the identity, for each bit of
/// the canonical scalar from the top set bit down, `double_in_place`, then
/// `add_assign_mixed` of the point where the bit is set.
#[verifier::external_body]
pub fn g1_mul(a: &G1Point, s: &Scalar) -> (r: G1Proj)
    requires
        a.wf(),
        s.wf(),
    ensures
        r.wf(),
        r@ == g1_smul(a@, s@),
{
    let p = ArkG1::new(fq_to_ark(&a.x), fq_to_ark(&a.y), a.infinity).mul(fr_to_ark(s));
    G1Proj { x: fq_from_ark(&p.x), y: fq_from_ark(&p.y), z: fq_from_ark(&p.z) }
}

/// Relies on `VariableBaseMSM::multi_scalar_mul` of ark-ec: the sum of
/// `scalars[i] * bases[i]`.
#[verifier::external_body]
pub fn g1_msm(bases: &[G1Point], scalars: &[Scalar]) -> (r: G1Proj)
    requires
        bases@.len() == scalars@.len(),
        forall|i: int| 0 <= i < bases@.len() ==> #[trigger] bases@[i].wf(),
        forall|i: int| 0 <= i < scalars@.len() ==> #[trigger] scalars@[i].wf(),
    ensures
        r.wf(),
        r@ == g1_msm_of(bases@.map_values(|p: G1Point| p@), scalars@.map_values(|s: Scalar| s@)),
{
    let b: Vec<ArkG1> = bases.iter().map(|a| ArkG1::new(fq_to_ark(&a.x), fq_to_ark(&a.y), a.infinity)).collect();
    let s: Vec<_> = scalars.iter().map(|s| fr_to_ark(s).into_repr()).collect();
    let p = ark_ec::msm::VariableBaseMSM::multi_scalar_mul(&b, &s);
    G1Proj { x: fq_from_ark(&p.x), y: fq_from_ark(&p.y), z: fq_from_ark(&p.z) }
}

/// Relies on the `PartialEq<GroupAffine>` of `GroupProjective` in ark-ec, which
/// lifts the affine point to `(x, y, 1)` (the identity to `Z = 0`) and compares
/// `X1 Z2^2 = X2 Z1^2`, `Y1 Z2^3 = Y2 Z1^3`.
#[verifier::external_body]
pub fn g1_eq(a: &G1Proj, b: &G1Point) -> (r: bool)
    requires
        a.wf(),
        b.wf(),
    ensures
        r == g1_same(a@, b@),
{
    ArkG1Proj::new(fq_to_ark(&a.x), fq_to_ark(&a.y), fq_to_ark(&a.z)) == ArkG1::new(
        fq_to_ark(&b.x),
        fq_to_ark(&b.y),
        b.infinity,
    )
}

/// Relies on `From<GroupProjective> for GroupAffine` of ark-ec: the identity
/// becomes `(0, 1, infinity)`, any other point `(X/Z^2, Y/Z^3)`.
#[verifier::external_body]
pub fn g1_to_affine(a: &G1Proj) -> (r: G1Point)
    requires
        a.wf(),
    ensures
        r.wf(),
        r@ == g1_affine_of(a@),
        g1_is_affine_of(r@, a@),
{
    let p = ArkG1Proj::new(fq_to_ark(&a.x), fq_to_ark(&a.y), fq_to_ark(&a.z)).into_affine();
    G1Point { x: fq_from_ark(&p.x), y: fq_from_ark(&p.y), infinity: p.infinity }
}

/// Relies on `ProjectiveCurve::batch_normalization_into_affine` of ark-ec: the
/// affine form of each point, in order, with one shared inversion.
#[verifier::external_body]
pub fn g1_batch_to_affine(v: &Vec<G1Proj>) -> (r: Vec<G1Point>)
    requires
        forall|i: int| 0 <= i < v@.len() ==> #[trigger] v@[i].wf(),
    ensures
        r@.len() == v@.len(),
        forall|i: int| 0 <= i < v@.len() ==> #[trigger] r@[i].wf() && g1_is_affine_of(r@[i]@, v@[i]@),
{
    let p: Vec<ArkG1Proj> = v.iter().map(|a| ArkG1Proj::new(fq_to_ark(&a.x), fq_to_ark(&a.y), fq_to_ark(&a.z))).collect();
    let q = ArkG1Proj::batch_normalization_into_affine(&p);
    q.iter().map(|p| G1Point { x: fq_from_ark(&p.x), y: fq_from_ark(&p.y), infinity: p.infinity }).collect()
}

/// Relies on `GroupAffine::get_point_from_x` of ark-ec: it squares, checks for a
/// square root of `x^3 + 4`, and picks the larger root of the two if and only
/// if `greatest` is set.
#[verifier::external_body]
pub fn g1_from_x(x: &Fq, greatest: bool) -> (r: Option<G1Point>)
    requires
        x.wf(),
    ensures
        match r {
            Some(q) => {
                &&& q.wf()
                &&& q.x == *x
                &&& !q.infinity
                &&& fq_mul(q.y@, q.y@) == g1_rhs(x@)
                &&& q.y@ != 0 ==> crate::field::fq_is_larger(q.y@) == greatest
                &&& forall|y: nat| y < fq_modulus() && fq_mul(y, y) == g1_rhs(x@) ==> (q.y@ == y || q.y@ == fq_neg(y))
            },
            None => forall|y: nat| y < fq_modulus() ==> fq_mul(y, y) != g1_rhs(x@),
        },
{
    let p = ArkG1::get_point_from_x(fq_to_ark(x), greatest)?;
    Some(G1Point { x: fq_from_ark(&p.x), y: fq_from_ark(&p.y), infinity: p.infinity })
}

// ---------------------------------------------------------------------------
// G2 wrappers.
/// Relies on `GroupProjective::double_in_place` of ark-ec, which leaves the
/// identity unchanged.
#[verifier::external_body]
pub fn g2_double(a: &G2Proj) -> (r: G2Proj)
    requires
        a.wf(),
    ensures
        r.wf(),
        r@ == g2_double_of(a@),
        a@.2 == (0nat, 0nat) ==> r == *a,
{
    let f = |c: &Fq2| ArkFq2::new(fq_to_ark(&c.c0), fq_to_ark(&c.c1));
    let t = |c: &ArkFq2| Fq2 { c0: fq_from_ark(&c.c0), c1: fq_from_ark(&c.c1) };
    let mut p = ArkG2Proj::new(f(&a.x), f(&a.y), f(&a.z));
    p.double_in_place();
    G2Proj { x: t(&p.x), y: t(&p.y), z: t(&p.z) }
}

/// Relies on `GroupProjective::add_assign_mixed` of ark-ec, with the same
/// identity cases as for G1.
#[verifier::external_body]
pub fn g2_add_mixed(a: &G2Proj, b: &G2Point) -> (r: G2Proj)
    requires
        a.wf(),
        b.wf(),
    ensures
        r.wf(),
        r@ == g2_add_mixed_of(a@, b@),
        b.infinity ==> r == *a,
        !b.infinity && a@.2 == (0nat, 0nat) ==> r@ == (b.x@, b.y@, (1nat, 0nat)),
{
    let f = |c: &Fq2| ArkFq2::new(fq_to_ark(&c.c0), fq_to_ark(&c.c1));
    let t = |c: &ArkFq2| Fq2 { c0: fq_from_ark(&c.c0), c1: fq_from_ark(&c.c1) };
    let mut p = ArkG2Proj::new(f(&a.x), f(&a.y), f(&a.z));
    p.add_assign_mixed(&ArkG2::new(f(&b.x), f(&b.y), b.infinity));
    G2Proj { x: t(&p.x), y: t(&p.y), z: t(&p.z) }
}

/// Relies on the `+=` of `GroupProjective` in ark-ec, which returns the other
/// point when either one is the identity.
#[verifier::external_body]
pub fn g2_add(a: &G2Proj, b: &G2Proj) -> (r: G2Proj)
    requires
        a.wf(),
        b.wf(),
    ensures
        r.wf(),
        r@ == g2_add_of(a@, b@),
        a@.2 == (0nat, 0nat) ==> r == *b,
        a@.2 != (0nat, 0nat) && b@.2 == (0nat, 0nat) ==> r == *a,
{
    let f = |c: &Fq2| ArkFq2::new(fq_to_ark(&c.c0), fq_to_ark(&c.c1));
    let t = |c: &ArkFq2| Fq2 { c0: fq_from_ark(&c.c0), c1: fq_from_ark(&c.c1) };
    let mut p = ArkG2Proj::new(f(&a.x), f(&a.y), f(&a.z));
    p += ArkG2Proj::new(f(&b.x), f(&b.y), f(&b.z));
    G2Proj { x: t(&p.x), y: t(&p.y), z: t(&p.z) }
}

/// Relies on `AffineCurve::mul` of ark-ec, the same double-and-add as for G1.
#[verifier::external_body]
pub fn g2_mul(a: &G2Point, s: &Scalar) -> (r: G2Proj)
    requires
        a.wf(),
        s.wf(),
    ensures
        r.wf(),
        r@ == g2_smul(a@, s@),
{
    let f = |c: &Fq2| ArkFq2::new(fq_to_ark(&c.c0), fq_to_ark(&c.c1));
    let t = |c: &ArkFq2| Fq2 { c0: fq_from_ark(&c.c0), c1: fq_from_ark(&c.c1) };
    let p = ArkG2::new(f(&a.x), f(&a.y), a.infinity).mul(fr_to_ark(s));
    G2Proj { x: t(&p.x), y: t(&p.y), z: t(&p.z) }
}

/// Relies on `VariableBaseMSM::multi_scalar_mul` of ark-ec: the sum of
/// `scalars[i] * bases[i]`.
#[verifier::external_body]
pub fn g2_msm(bases: &[G2Point], scalars: &[Scalar]) -> (r: G2Proj)
    requires
        bases@.len() == scalars@.len(),
        forall|i: int| 0 <= i < bases@.len() ==> #[trigger] bases@[i].wf(),
        forall|i: int| 0 <= i < scalars@.len() ==> #[trigger] scalars@[i].wf(),
    ensures
        r.wf(),
        r@ == g2_msm_of(bases@.map_values(|p: G2Point| p@), scalars@.map_values(|s: Scalar| s@)),
{
    let f = |c: &Fq2| ArkFq2::new(fq_to_ark(&c.c0), fq_to_ark(&c.c1));
    let t = |c: &ArkFq2| Fq2 { c0: fq_from_ark(&c.c0), c1: fq_from_ark(&c.c1) };
    let b: Vec<ArkG2> = bases.iter().map(|a| ArkG2::new(f(&a.x), f(&a.y), a.infinity)).collect();
    let s: Vec<_> = scalars.iter().map(|s| fr_to_ark(s).into_repr()).collect();
    let p = ark_ec::msm::VariableBaseMSM::multi_scalar_mul(&b, &s);
    G2Proj { x: t(&p.x), y: t(&p.y), z: t(&p.z) }
}

/// Relies on the `PartialEq<GroupAffine>` of `GroupProjective` in ark-ec, as for G1.
#[verifier::external_body]
pub fn g2_eq(a: &G2Proj, b: &G2Point) -> (r: bool)
    requires
        a.wf(),
        b.wf(),
    ensures
        r == g2_same(a@, b@),
{
    let f = |c: &Fq2| ArkFq2::new(fq_to_ark(&c.c0), fq_to_ark(&c.c1));
    ArkG2Proj::new(f(&a.x), f(&a.y), f(&a.z)) == ArkG2::new(f(&b.x), f(&b.y), b.infinity)
}

/// Relies on `From<GroupProjective> for GroupAffine` of ark-ec, as for G1.
#[verifier::external_body]
pub fn g2_to_affine(a: &G2Proj) -> (r: G2Point)
    requires
        a.wf(),
    ensures
        r.wf(),
        r@ == g2_affine_of(a@),
        g2_is_affine_of(r@, a@),
{
    let f = |c: &Fq2| ArkFq2::new(fq_to_ark(&c.c0), fq_to_ark(&c.c1));
    let t = |c: &ArkFq2| Fq2 { c0: fq_from_ark(&c.c0), c1: fq_from_ark(&c.c1) };
    let p = ArkG2Proj::new(f(&a.x), f(&a.y), f(&a.z)).into_affine();
    G2Point { x: t(&p.x), y: t(&p.y), infinity: p.infinity }
}

/// Relies on `ProjectiveCurve::batch_normalization_into_affine` of ark-ec, as for G1.
#[verifier::external_body]
pub fn g2_batch_to_affine(v: &Vec<G2Proj>) -> (r: Vec<G2Point>)
    requires
        forall|i: int| 0 <= i < v@.len() ==> #[trigger] v@[i].wf(),
    ensures
        r@.len() == v@.len(),
        forall|i: int| 0 <= i < v@.len() ==> #[trigger] r@[i].wf() && g2_is_affine_of(r@[i]@, v@[i]@),
{
    let f = |c: &Fq2| ArkFq2::new(fq_to_ark(&c.c0), fq_to_ark(&c.c1));
    let t = |c: &ArkFq2| Fq2 { c0: fq_from_ark(&c.c0), c1: fq_from_ark(&c.c1) };
    let p: Vec<ArkG2Proj> = v.iter().map(|a| ArkG2Proj::new(f(&a.x), f(&a.y), f(&a.z))).collect();
    let q = ArkG2Proj::batch_normalization_into_affine(&p);
    q.iter().map(|p| G2Point { x: t(&p.x), y: t(&p.y), infinity: p.infinity }).collect()
}

/// Relies on `GroupAffine::get_point_from_x` of ark-ec over Fq2: a square root
/// of `x^3 + 4(u + 1)`, the larger of the two if and only if `greatest` is set.
/// The square root of ark-ff's quadratic extension looks for a root in Fq
/// alone when the `u` coefficient of its argument is zero: then the root it
/// returns lies in Fq, and it returns none where the argument is no square in
/// Fq (though it may be one in Fq2).
#[verifier::external_body]
pub fn g2_from_x(x: &Fq2, greatest: bool) -> (r: Option<G2Point>)
    requires
        x.wf(),
    ensures
        match r {
            Some(q) => {
                &&& q.wf()
                &&& q.x == *x
                &&& !q.infinity
                &&& fq2_mul(q.y@, q.y@) == g2_rhs(x@)
                &&& q.y@ != (0nat, 0nat) ==> crate::field::fq2_is_larger(q.y@) == greatest
                &&& g2_rhs(x@).1 == 0 ==> q.y@.1 == 0
                &&& forall|y: (nat, nat)| y.0 < fq_modulus() && y.1 < fq_modulus() && fq2_mul(y, y) == g2_rhs(x@)
                    ==> (q.y@ == y || q.y@ == crate::field::fq2_neg(y))
            },
            None => if g2_rhs(x@).1 == 0 {
                forall|b: nat| b < fq_modulus() ==> fq_mul(b, b) != g2_rhs(x@).0
            } else {
                forall|y: (nat, nat)| y.0 < fq_modulus() && y.1 < fq_modulus() ==> fq2_mul(y, y) != g2_rhs(x@)
            },
        },
{
    let f = |c: &Fq2| ArkFq2::new(fq_to_ark(&c.c0), fq_to_ark(&c.c1));
    let t = |c: &ArkFq2| Fq2 { c0: fq_from_ark(&c.c0), c1: fq_from_ark(&c.c1) };
    let p = ArkG2::get_point_from_x(f(x), greatest)?;
    Some(G2Point { x: t(&p.x), y: t(&p.y), infinity: p.infinity })
}

/// Relies on `PairingEngine::miller_loop` and `final_exponentiation` of ark-ec
/// for BLS12-381, the two halves of `pairing`: whether `e(a, b) = e(c, d)`.
/// The reduced values are compared as options, so a Miller loop that yields
/// zero (which `pairing` itself would unwrap) gives a result, not a panic.
/// The computation is deterministic, so equal arguments give equal values.
#[verifier::external_body]
pub fn pairing_eq(a: &G1Point, b: &G2Point, c: &G1Point, d: &G2Point) -> (r: bool)
    requires
        a.wf(),
        b.wf(),
        c.wf(),
        d.wf(),
    ensures
        r == pairing_eq_of(a@, b@, c@, d@),
        a@ == c@ && b@ == d@ ==> r,
{
    let f = |c: &Fq2| ArkFq2::new(fq_to_ark(&c.c0), fq_to_ark(&c.c1));
    let e = |p: &G1Point, q: &G2Point| {
        let g1 = ArkG1::new(fq_to_ark(&p.x), fq_to_ark(&p.y), p.infinity);
        let pair = (g1.into(), ArkG2::new(f(&q.x), f(&q.y), q.infinity).into());
        Bls12::final_exponentiation(&Bls12::miller_loop(core::iter::once(&pair)))
    };
    e(a, b) == e(c, d)
}

} // verus!
