//! Subgroup membership tests that use curve endomorphisms instead of a
//! multiplication by the group order (Section 4 and 6 of eprint 2021/1130).
use crate::constants::{beta, beta_val, psi_x, psi_x_val, psi_y0, psi_y1, psi_y_val};
use crate::curve::{
    g1_add_mixed, g1_add, g1_add_of, g1_smul, g1_double, g1_double_of, g1_eq,
    g1_proj_neg, g1_proj_zero, g1_same, g2_add_mixed, g2_double, g2_double_of, g2_smul,
    g2_eq, g2_proj_neg, g2_proj_zero, g2_same, G1Point, G1Proj, G1ProjView, G1View, G2Point,
    G2Proj, G2View,
};
use crate::field::{fq2_frobenius, fq2_mul, fq2_mul_exec, fq_mul, fq_mul_exec, fq_neg, fq_neg_exec, Fq2};
use vstd::prelude::*;

verus! {

/// The absolute value of the BLS parameter X of BLS12-381 (X itself is negative).
pub const BLS_X: u64 = 0xd201000000010000;

/// `[k]P` for a point in Jacobian coordinates.
pub open spec fn g1_smul_proj(p: G1ProjView, k: nat) -> G1ProjView
    decreases k,
{
    if k == 0 {
        g1_proj_zero()
    } else {
        let r = g1_double_of(g1_smul_proj(p, k / 2));
        if k % 2 == 1 { g1_add_of(r, p) } else { r }
    }
}

/// The G1 endomorphism `(x, y) -> (BETA x, y)`.
pub open spec fn g1_endo(p: G1View) -> G1View {
    (fq_mul(p.0, beta_val()), p.1, p.2)
}

/// The G2 endomorphism untwist-Frobenius-twist:
/// `(x, y) -> (x^p * PSI_X, y^p * PSI_Y)`, where `x^p` is the conjugate.
pub open spec fn g2_endo(p: G2View) -> G2View {
    let fx = (p.0.0, fq_neg(p.0.1));
    let fy = (p.1.0, fq_neg(p.1.1));
    ((fq_mul(fq_neg(psi_x_val()), fx.1), fq_mul(psi_x_val(), fx.0)), fq2_mul(fy, psi_y_val()), p.2)
}

/// What the G1 subgroup test decides: `[X]P = P` for a point other than the
/// identity rejects; otherwise `-[X^2]P` must equal the endomorphism of P.
pub open spec fn g1_passes_subgroup_test(p: G1View) -> bool {
    let xp = g1_smul(p, BLS_X as nat);
    if g1_same(xp, p) && !p.2 {
        false
    } else {
        g1_same(g1_proj_neg(g1_smul_proj(xp, BLS_X as nat)), g1_endo(p))
    }
}

/// What the G2 subgroup test decides: `[X]P` (X negative) must equal the
/// endomorphism of P.
pub open spec fn g2_passes_subgroup_test(p: G2View) -> bool {
    g2_same(g2_proj_neg(g2_smul(p, BLS_X as nat)), g2_endo(p))
}

proof fn lemma_shr_step(k: u64, i: u64)
    requires
        1 <= i <= 64,
    ensures
        (k >> ((i - 1) as u64)) / 2 == (if i == 64 { 0 } else { k >> i }),
        ((k >> ((i - 1) as u64)) & 1 == 1) == ((k >> ((i - 1) as u64)) % 2 == 1),
        i == 1 ==> (k >> ((i - 1) as u64)) == k,
{
    let j = (i - 1) as u64;
    let n = k >> j;
    assert(n & 1 == 1 <==> n % 2 == 1) by (bit_vector);
    if i == 64 {
        assert(j == 63);
        assert((k >> 63u64) / 2 == 0) by (bit_vector);
    } else {
        assert(j < 63 ==> (k >> j) / 2 == k >> ((j + 1) as u64)) by (bit_vector);
    }
    assert(k >> 0u64 == k) by (bit_vector);
}

/// `[k]P` by double-and-add over the 64 bits of `k`.
pub fn g1_mul_bigint(base: &G1Point, k: u64) -> (r: G1Proj)
    requires
        base.wf(),
    ensures
        r.wf(),
        r@ == g1_smul(base@, k as nat),
{
    let mut res = G1Proj::zero();
    let mut prev: u64 = 0;
    let mut i: u64 = 64;
    while i > 0
        invariant
            i <= 64,
            base.wf(),
            res.wf(),
            prev == (if i == 64 { 0 } else { k >> i }),
            res@ == g1_smul(base@, prev as nat),
        decreases i,
    {
        let next = k >> (i - 1);
        proof {
            lemma_shr_step(k, i);
        }
        res = g1_double(&res);
        if next & 1 == 1 {
            res = g1_add_mixed(&res, base);
        }
        prev = next;
        i -= 1;
    }
    proof {
        lemma_shr_step(k, 1);
    }
    res
}

/// `[k]P` for a point in Jacobian coordinates, over the 64 bits of `k`.
pub fn g1_mul_bigint_proj(base: &G1Proj, k: u64) -> (r: G1Proj)
    requires
        base.wf(),
    ensures
        r.wf(),
        r@ == g1_smul_proj(base@, k as nat),
{
    let mut res = G1Proj::zero();
    let mut prev: u64 = 0;
    let mut i: u64 = 64;
    while i > 0
        invariant
            i <= 64,
            base.wf(),
            res.wf(),
            prev == (if i == 64 { 0 } else { k >> i }),
            res@ == g1_smul_proj(base@, prev as nat),
        decreases i,
    {
        let next = k >> (i - 1);
        proof {
            lemma_shr_step(k, i);
        }
        res = g1_double(&res);
        if next & 1 == 1 {
            res = g1_add(&res, base);
        }
        prev = next;
        i -= 1;
    }
    proof {
        lemma_shr_step(k, 1);
    }
    res
}

/// `[k]P` on G2 over the 64 bits of `k`.
pub fn g2_mul_bigint(base: &G2Point, k: u64) -> (r: G2Proj)
    requires
        base.wf(),
    ensures
        r.wf(),
        r@ == g2_smul(base@, k as nat),
{
    let mut res = G2Proj::zero();
    let mut prev: u64 = 0;
    let mut i: u64 = 64;
    while i > 0
        invariant
            i <= 64,
            base.wf(),
            res.wf(),
            prev == (if i == 64 { 0 } else { k >> i }),
            res@ == g2_smul(base@, prev as nat),
        decreases i,
    {
        let next = k >> (i - 1);
        proof {
            lemma_shr_step(k, i);
        }
        res = g2_double(&res);
        if next & 1 == 1 {
            res = g2_add_mixed(&res, base);
        }
        prev = next;
        i -= 1;
    }
    proof {
        lemma_shr_step(k, 1);
    }
    res
}

/// The G1 endomorphism `(x, y) -> (BETA x, y)`.
pub fn g1_endomorphism(p: &G1Point) -> (r: G1Point)
    requires
        p.wf(),
    ensures
        r.wf(),
        r@ == g1_endo(p@),
{
    G1Point { x: fq_mul_exec(&p.x, &beta()), y: p.y, infinity: p.infinity }
}

/// The G2 endomorphism: Frobenius on both coordinates, then the twist constants.
pub fn g2_endomorphism(p: &G2Point) -> (r: G2Point)
    requires
        p.wf(),
    ensures
        r.wf(),
        r@ == g2_endo(p@),
{
    let fx = fq2_frobenius(&p.x);
    let fy = fq2_frobenius(&p.y);
    let c = psi_x();
    let x = Fq2 { c0: fq_mul_exec(&fq_neg_exec(&c), &fx.c1), c1: fq_mul_exec(&c, &fx.c0) };
    let y = fq2_mul_exec(&fy, &Fq2 { c0: psi_y0(), c1: psi_y1() });
    G2Point { x, y, infinity: p.infinity }
}

/// Whether a point on the G1 curve lies in the prime-order subgroup.
pub fn g1_subgroup_check(p: &G1Point) -> (r: bool)
    requires
        p.wf(),
    ensures
        r == g1_passes_subgroup_test(p@),
{
    let x_times_p = g1_mul_bigint(p, BLS_X);
    if g1_eq(&x_times_p, p) && !p.infinity {
        return false;
    }
    let minus_x_squared_times_p = g1_mul_bigint_proj(&x_times_p, BLS_X).neg();
    let endomorphism_p = g1_endomorphism(p);
    g1_eq(&minus_x_squared_times_p, &endomorphism_p)
}

/// Whether a point on the G2 curve lies in the prime-order subgroup.
pub fn g2_subgroup_check(p: &G2Point) -> (r: bool)
    requires
        p.wf(),
    ensures
        r == g2_passes_subgroup_test(p@),
{
    let x_times_p = g2_mul_bigint(p, BLS_X).neg();
    let p_times_p = g2_endomorphism(p);
    g2_eq(&x_times_p, &p_times_p)
}

} // verus!
