//! Scalar multiplication on G1 by the method of Gallant, Lambert and
//! Vanstone: the scalar is split into two halves along the eigenvalue of the
//! endomorphism, and both halves run through one double-and-add.
use crate::curve::{
    g1_add_mixed, g1_add_mixed_of, g1_double, g1_double_of, g1_neg, g1_proj_zero, G1Point, G1Proj,
    G1ProjView, G1View,
};
use crate::field::{fr_modulus, limbs_val, Scalar};
use crate::subgroup::{g1_endo, g1_endomorphism};
use vstd::arithmetic::div_mod::lemma_fundamental_div_mod_converse;
use vstd::prelude::*;

verus! {

/// The low and high limbs of `X^2`, the modulus of the scalar split.
pub const G1_LAMBDA_2: [u64; 2] = [0x0000000100000000, 0xac45a4010001a402];

/// `X^2`, the value of `G1_LAMBDA_2`.
pub open spec fn glv_lambda() -> nat {
    limbs_val(seq![0x0000000100000000u64, 0xac45a4010001a402u64])
}

/// The second base of the split multiplication, `psi(-P)`.
pub open spec fn glv_base(p: G1View) -> G1View {
    g1_neg(g1_endo(p))
}

/// `[a]P + [b]Q` by one double-and-add over the bits of `a` and `b` together,
/// with the group law of arkworks.
pub open spec fn g1_smul2(p: G1View, q: G1View, a: nat, b: nat) -> G1ProjView
    decreases a + b,
{
    if a == 0 && b == 0 {
        g1_proj_zero()
    } else {
        let r = g1_double_of(g1_smul2(p, q, a / 2, b / 2));
        let r1 = if a % 2 == 1 { g1_add_mixed_of(r, p) } else { r };
        if b % 2 == 1 { g1_add_mixed_of(r1, q) } else { r1 }
    }
}

/// Relies on `ruint::algorithms::div`, which leaves the quotient in the
/// numerator and the remainder in the divisor, and panics on a zero divisor.
#[verifier::external_body]
fn div_rem(n: [u64; 4], d: [u64; 2]) -> (r: ([u64; 4], [u64; 2]))
    requires
        limbs_val(d@) > 0,
    ensures
        limbs_val(r.0@) * limbs_val(d@) + limbs_val(r.1@) == limbs_val(n@),
        limbs_val(r.1@) < limbs_val(d@),
{
    let (mut n, mut d) = (n, d);
    ruint::algorithms::div(&mut n, &mut d);
    (n, d)
}

proof fn lemma_limbs_val_2(s: Seq<u64>)
    requires
        s.len() == 2,
    ensures
        limbs_val(s) == s[0] as nat + 0x1_0000_0000_0000_0000 * (s[1] as nat),
{
    reveal_with_fuel(limbs_val, 3);
    assert(s.drop_first().drop_first() =~= Seq::<u64>::empty());
}

proof fn lemma_limbs_val_4(s: Seq<u64>)
    requires
        s.len() == 4,
    ensures
        limbs_val(s) == s[0] as nat + 0x1_0000_0000_0000_0000 * (s[1] as nat
            + 0x1_0000_0000_0000_0000 * (s[2] as nat + 0x1_0000_0000_0000_0000 * (s[3] as nat))),
{
    reveal_with_fuel(limbs_val, 5);
    assert(s.drop_first().drop_first().drop_first().drop_first() =~= Seq::<u64>::empty());
}

/// Splits `tau` into `k0 = tau mod X^2` and `k1 = tau / X^2`, both below 2^128.
pub fn g1_split(tau: &Scalar) -> (r: (u128, u128))
    requires
        tau.wf(),
    ensures
        r.0 as nat == tau@ % glv_lambda(),
        r.1 as nat == tau@ / glv_lambda(),
{
    let (q, d) = div_rem(tau.limbs, G1_LAMBDA_2);
    proof {
        lemma_limbs_val_2(G1_LAMBDA_2@);
        lemma_limbs_val_2(seq![0x0000000100000000u64, 0xac45a4010001a402u64]);
        lemma_limbs_val_2(d@);
        lemma_limbs_val_4(q@);
        lemma_limbs_val_4(seq![0xffffffff00000001u64, 0x53bda402fffe5bfe, 0x3339d80809a1d805, 0x73eda753299d7d48]);
        let l = glv_lambda();
        let qv = limbs_val(q@);
        assert(l > 0x8000_0000_0000_0000 * 0x1_0000_0000_0000_0000);
        assert(qv * l < 0x8000_0000_0000_0000 * 0x1_0000_0000_0000_0000 * 0x1_0000_0000_0000_0000 * 0x1_0000_0000_0000_0000);
        assert(qv < 0x1_0000_0000_0000_0000 * 0x1_0000_0000_0000_0000) by (nonlinear_arith)
            requires
                l > 0x8000_0000_0000_0000 * 0x1_0000_0000_0000_0000,
                qv * l < 0x8000_0000_0000_0000 * 0x1_0000_0000_0000_0000 * 0x1_0000_0000_0000_0000 * 0x1_0000_0000_0000_0000,
        ;
        assert(q[2] == 0 && q[3] == 0) by (nonlinear_arith)
            requires
                qv == q[0] as nat + 0x1_0000_0000_0000_0000 * (q[1] as nat
                    + 0x1_0000_0000_0000_0000 * (q[2] as nat + 0x1_0000_0000_0000_0000 * (q[3] as nat))),
                qv < 0x1_0000_0000_0000_0000 * 0x1_0000_0000_0000_0000,
        ;
        lemma_fundamental_div_mod_converse(tau@ as int, l as int, qv as int, limbs_val(d@) as int);
    }
    let k0 = (d[0] as u128) + (d[1] as u128) * 0x1_0000_0000_0000_0000u128;
    let k1 = (q[0] as u128) + (q[1] as u128) * 0x1_0000_0000_0000_0000u128;
    (k0, k1)
}

/// The scalar split is exact: every scalar `tau` below the group order is
/// `k0 + k1 X^2` with `k0 = tau mod X^2 < X^2` and `k1 = tau / X^2 < 2^128`,
/// the two halves that `g1_split` returns and `g1_mul_glv` multiplies by.
pub proof fn lemma_glv_split_recombines(tau: nat)
    requires
        tau < fr_modulus(),
    ensures
        tau % glv_lambda() + (tau / glv_lambda()) * glv_lambda() == tau,
        tau % glv_lambda() < glv_lambda(),
        tau / glv_lambda() < 0x1_0000_0000_0000_0000 * 0x1_0000_0000_0000_0000,
{
    let l = glv_lambda();
    lemma_limbs_val_2(seq![0x0000000100000000u64, 0xac45a4010001a402u64]);
    lemma_limbs_val_4(seq![0xffffffff00000001u64, 0x53bda402fffe5bfe, 0x3339d80809a1d805, 0x73eda753299d7d48]);
    vstd::arithmetic::div_mod::lemma_fundamental_div_mod(tau as int, l as int);
    vstd::arithmetic::div_mod::lemma_mod_pos_bound(tau as int, l as int);
    let q = tau / l;
    assert(q * l <= tau) by {
        vstd::arithmetic::div_mod::lemma_fundamental_div_mod(tau as int, l as int);
    }
    assert(q < 0x1_0000_0000_0000_0000 * 0x1_0000_0000_0000_0000) by (nonlinear_arith)
        requires
            l > 0x8000_0000_0000_0000 * 0x1_0000_0000_0000_0000,
            q * l <= tau,
            tau < 0x8000_0000_0000_0000 * 0x1_0000_0000_0000_0000 * 0x1_0000_0000_0000_0000 * 0x1_0000_0000_0000_0000,
    ;
}

proof fn lemma_shr_step_u128(k: u128, i: u128)
    requires
        1 <= i <= 128,
    ensures
        (k >> ((i - 1) as u128)) / 2 == (if i == 128 { 0 } else { k >> i }),
        ((k >> ((i - 1) as u128)) & 1 == 1) == ((k >> ((i - 1) as u128)) % 2 == 1),
        i == 1 ==> (k >> ((i - 1) as u128)) == k,
{
    let j = (i - 1) as u128;
    let n = k >> j;
    assert(n & 1 == 1 <==> n % 2 == 1) by (bit_vector);
    if i == 128 {
        assert(j == 127);
        assert((k >> 127u128) / 2 == 0) by (bit_vector);
    } else {
        assert(j < 127 ==> (k >> j) / 2 == k >> ((j + 1) as u128)) by (bit_vector);
    }
    assert(k >> 0u128 == k) by (bit_vector);
}

/// `[tau]P` as `[k0]P + [k1]psi(-P)`, with `(k0, k1)` the split of `tau`.
pub fn g1_mul_glv(p: &G1Point, tau: &Scalar) -> (r: G1Proj)
    requires
        p.wf(),
        tau.wf(),
    ensures
        r.wf(),
        r@ == g1_smul2(p@, glv_base(p@), tau@ % glv_lambda(), tau@ / glv_lambda()),
        p.infinity ==> r@ == g1_proj_zero(),
{
    let (k0, k1) = g1_split(tau);
    let q = g1_endomorphism(p).neg();
    let mut res = G1Proj::zero();
    let mut prev0: u128 = 0;
    let mut prev1: u128 = 0;
    let mut i: u128 = 128;
    while i > 0
        invariant
            i <= 128,
            p.wf(),
            q.wf(),
            q@ == glv_base(p@),
            res.wf(),
            prev0 == (if i == 128 { 0 } else { k0 >> i }),
            prev1 == (if i == 128 { 0 } else { k1 >> i }),
            res@ == g1_smul2(p@, q@, prev0 as nat, prev1 as nat),
            p.infinity ==> q.infinity && res@ == g1_proj_zero(),
        decreases i,
    {
        let next0 = k0 >> (i - 1);
        let next1 = k1 >> (i - 1);
        proof {
            lemma_shr_step_u128(k0, i);
            lemma_shr_step_u128(k1, i);
        }
        res = g1_double(&res);
        if next0 & 1 == 1 {
            res = g1_add_mixed(&res, p);
        }
        if next1 & 1 == 1 {
            res = g1_add_mixed(&res, &q);
        }
        prev0 = next0;
        prev1 = next1;
        i -= 1;
    }
    proof {
        lemma_shr_step_u128(k0, 1);
        lemma_shr_step_u128(k1, 1);
    }
    res
}

} // verus!
