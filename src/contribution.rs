//! The ceremony's data model (transcripts and contributions), the update with
//! a secret, and the pairing-based verification of an update.
use crate::curve::{
    g1_affine_of, g1_batch_to_affine, g1_generator, g1_is_affine_of, g1_msm, g1_msm_of,
    g1_to_affine, g2_affine_of, g2_batch_to_affine, g2_generator, g2_is_affine_of, g2_msm,
    g2_msm_of, g2_mul, g2_smul, g2_to_affine, pairing_eq, pairing_eq_of, G1Point, G1Proj,
    G1ProjView, G1View, G2Point, G2Proj, G2View,
};
use crate::field::{fr_modulus, random_scalar, scalar_mul, Scalar};
use crate::glv::{g1_mul_glv, g1_smul2, glv_base, glv_lambda};
use crate::subgroup::{g1_passes_subgroup_test, g1_subgroup_check, g2_passes_subgroup_test, g2_subgroup_check};
use rayon::iter::{IndexedParallelIterator, IntoParallelRefIterator, ParallelIterator};
use vstd::arithmetic::power::pow;
use vstd::prelude::*;
use vstd::slice::slice_subrange;

verus! {

/// The accepted state of one size class: the powers, the running products of
/// the G1 element one, and the contributors' public keys.
#[derive(Clone, Debug, PartialEq, Eq)]
pub struct Transcript {
    pub g1_powers: Vec<G1Point>,
    pub g2_powers: Vec<G2Point>,
    pub products: Vec<G1Point>,
    pub pubkeys: Vec<G2Point>,
}

/// A proposed next state of one size class, with the contributor's public key.
#[derive(Clone, Debug, PartialEq, Eq)]
pub struct Contribution {
    pub pubkey: G2Point,
    pub g1_powers: Vec<G1Point>,
    pub g2_powers: Vec<G2Point>,
}

/// Why a contribution does not extend a transcript.
#[derive(Clone, Copy, Debug, PartialEq, Eq)]
pub enum VerifyError {
    /// The power sequences differ in length from the transcript's.
    PowerCountMismatch,
    /// Fewer than two powers of a group, more G2 than G1 powers, or no product.
    UnsupportedSize,
    /// `e(g1_powers[1], G2) != e(last product, pubkey)`.
    PubkeyMismatch,
    /// Consecutive G1 powers are not related by the secret in `g2_powers[1]`.
    G1PowersInconsistent,
    /// The G2 powers do not carry the exponents of the G1 powers.
    G2PowersInconsistent,
}

pub open spec fn all_g1_wf(s: Seq<G1Point>) -> bool {
    forall|i: int| 0 <= i < s.len() ==> #[trigger] s[i].wf()
}

pub open spec fn all_g2_wf(s: Seq<G2Point>) -> bool {
    forall|i: int| 0 <= i < s.len() ==> #[trigger] s[i].wf()
}

pub open spec fn g1_views(s: Seq<G1Point>) -> Seq<G1View> {
    s.map_values(|p: G1Point| p@)
}

pub open spec fn g2_views(s: Seq<G2Point>) -> Seq<G2View> {
    s.map_values(|p: G2Point| p@)
}

pub open spec fn scalar_views(s: Seq<Scalar>) -> Seq<nat> {
    s.map_values(|x: Scalar| x@)
}

/// `tau^i mod r`.
pub open spec fn pow_mod_r(tau: nat, i: nat) -> nat {
    (pow(tau as int, i) % (fr_modulus() as int)) as nat
}

/// `[s]P` on G1 as the split multiplication computes it.
pub open spec fn g1_glv_mul(p: G1View, s: nat) -> G1ProjView {
    g1_smul2(p, glv_base(p), s % glv_lambda(), s / glv_lambda())
}

impl Transcript {
    pub open spec fn wf(&self) -> bool {
        &&& all_g1_wf(self.g1_powers@)
        &&& all_g2_wf(self.g2_powers@)
        &&& all_g1_wf(self.products@)
        &&& all_g2_wf(self.pubkeys@)
    }

    /// The genesis transcript: every power is the generator, and the product
    /// and the public key start at the generators.
    pub fn new(num_g1: usize, num_g2: usize) -> (r: Transcript)
        ensures
            r.wf(),
            r.g1_powers@.len() == num_g1,
            r.g2_powers@.len() == num_g2,
            forall|i: int| 0 <= i < num_g1 ==> #[trigger] r.g1_powers@[i]@ == g1_generator(),
            forall|i: int| 0 <= i < num_g2 ==> #[trigger] r.g2_powers@[i]@ == g2_generator(),
            r.products@.len() == 1 && r.products@[0]@ == g1_generator(),
            r.pubkeys@.len() == 1 && r.pubkeys@[0]@ == g2_generator(),
    {
        let g1 = G1Point::generator();
        let g2 = G2Point::generator();
        Transcript {
            g1_powers: g1_repeat(g1, num_g1),
            g2_powers: g2_repeat(g2, num_g2),
            products: vec![g1],
            pubkeys: vec![g2],
        }
    }
}

fn g1_repeat(p: G1Point, n: usize) -> (r: Vec<G1Point>)
    ensures
        r@.len() == n,
        forall|i: int| 0 <= i < n ==> #[trigger] r@[i] == p,
{
    let mut r: Vec<G1Point> = Vec::with_capacity(n);
    let mut i: usize = 0;
    while i < n
        invariant
            i <= n,
            r@.len() == i,
            forall|j: int| 0 <= j < i ==> #[trigger] r@[j] == p,
        decreases n - i,
    {
        r.push(p);
        i += 1;
    }
    r
}

fn g2_repeat(p: G2Point, n: usize) -> (r: Vec<G2Point>)
    ensures
        r@.len() == n,
        forall|i: int| 0 <= i < n ==> #[trigger] r@[i] == p,
{
    let mut r: Vec<G2Point> = Vec::with_capacity(n);
    let mut i: usize = 0;
    while i < n
        invariant
            i <= n,
            r@.len() == i,
            forall|j: int| 0 <= j < i ==> #[trigger] r@[j] == p,
        decreases n - i,
    {
        r.push(p);
        i += 1;
    }
    r
}

/// Relies on `zeroize::Zeroize` for `[u64; 4]`, which overwrites each limb with
/// zero in a way the compiler does not remove.
#[verifier::external_body]
fn wipe_scalar(s: &mut Scalar)
    ensures
        final(s)@ == 0,
{
    zeroize::Zeroize::zeroize(&mut s.limbs);
}

/// Overwrites every scalar of `v` with zero, in place.
fn wipe_scalars(v: &mut Vec<Scalar>)
    ensures
        final(v)@.len() == old(v)@.len(),
        forall|i: int| 0 <= i < final(v)@.len() ==> #[trigger] final(v)@[i]@ == 0,
{
    let n = v.len();
    let mut i: usize = 0;
    while i < n
        invariant
            n == v@.len(),
            i <= n,
            forall|j: int| 0 <= j < i ==> #[trigger] v@[j]@ == 0,
        decreases n - i,
    {
        wipe_scalar(&mut v[i]);
        i += 1;
    }
}

/// Relies on rayon's indexed parallel iterators: `zip`, `map` and `collect`
/// give one result per pair, in order. Each result is the verified
/// `g1_mul_glv`, whose preconditions the `requires` carry.
#[verifier::external_body]
fn par_mul_g1(points: &Vec<G1Point>, scalars: &Vec<Scalar>) -> (r: Vec<G1Proj>)
    requires
        scalars@.len() >= points@.len(),
        all_g1_wf(points@),
        forall|i: int| 0 <= i < scalars@.len() ==> #[trigger] scalars@[i].wf(),
    ensures
        r@.len() == points@.len(),
        forall|i: int| 0 <= i < points@.len() ==> #[trigger] r@[i].wf()
            && r@[i]@ == g1_glv_mul(points@[i]@, scalars@[i]@),
{
    points.par_iter().zip(scalars.par_iter()).map(|(p, s)| g1_mul_glv(p, s)).collect()
}

impl Contribution {
    pub open spec fn wf(&self) -> bool {
        &&& self.pubkey.wf()
        &&& all_g1_wf(self.g1_powers@)
        &&& all_g2_wf(self.g2_powers@)
    }

    /// A fresh contribution: every power and the public key are the generators.
    pub fn new(num_g1: usize, num_g2: usize) -> (r: Contribution)
        ensures
            r.wf(),
            r.g1_powers@.len() == num_g1,
            r.g2_powers@.len() == num_g2,
            forall|i: int| 0 <= i < num_g1 ==> #[trigger] r.g1_powers@[i]@ == g1_generator(),
            forall|i: int| 0 <= i < num_g2 ==> #[trigger] r.g2_powers@[i]@ == g2_generator(),
            r.pubkey@ == g2_generator(),
    {
        Contribution {
            pubkey: G2Point::generator(),
            g1_powers: g1_repeat(G1Point::generator(), num_g1),
            g2_powers: g2_repeat(G2Point::generator(), num_g2),
        }
    }

    /// Whether the public key and every power lie in the prime-order subgroups.
    pub fn subgroup_check(&self) -> (r: bool)
        requires
            self.wf(),
        ensures
            r == (g2_passes_subgroup_test(self.pubkey@)
                && (forall|i: int| 0 <= i < self.g1_powers@.len() ==> g1_passes_subgroup_test(#[trigger] self.g1_powers@[i]@))
                && (forall|i: int| 0 <= i < self.g2_powers@.len() ==> g2_passes_subgroup_test(#[trigger] self.g2_powers@[i]@))),
    {
        if !g2_subgroup_check(&self.pubkey) {
            return false;
        }
        let mut i: usize = 0;
        while i < self.g1_powers.len()
            invariant
                self.wf(),
                i <= self.g1_powers@.len(),
                forall|j: int| 0 <= j < i ==> g1_passes_subgroup_test(#[trigger] self.g1_powers@[j]@),
            decreases self.g1_powers@.len() - i,
        {
            if !g1_subgroup_check(&self.g1_powers[i]) {
                return false;
            }
            i += 1;
        }
        let mut i: usize = 0;
        while i < self.g2_powers.len()
            invariant
                self.wf(),
                i <= self.g2_powers@.len(),
                forall|j: int| 0 <= j < self.g1_powers@.len() ==> g1_passes_subgroup_test(#[trigger] self.g1_powers@[j]@),
                forall|j: int| 0 <= j < i ==> g2_passes_subgroup_test(#[trigger] self.g2_powers@[j]@),
            decreases self.g2_powers@.len() - i,
        {
            if !g2_subgroup_check(&self.g2_powers[i]) {
                return false;
            }
            i += 1;
        }
        true
    }

    /// The powers `tau^0, ..., tau^(n-1)` modulo r. Each power is computed
    /// from the one before it in the table, which holds every secret value the
    /// function produces; the caller owns the table and wipes it (as `add_tau`
    /// does).
    fn pow_table(tau: &Scalar, n: usize) -> (r: Vec<Scalar>)
        requires
            tau.wf(),
        ensures
            r@.len() == n,
            forall|i: int| 0 <= i < n ==> #[trigger] r@[i].wf() && r@[i]@ == pow_mod_r(tau@, i as nat),
    {
        let mut powers: Vec<Scalar> = Vec::with_capacity(n);
        if n == 0 {
            return powers;
        }
        powers.push(Scalar::one());
        proof {
            reveal(pow);
            vstd::arithmetic::div_mod::lemma_small_mod(1, fr_modulus());
        }
        let mut i: usize = 1;
        while i < n
            invariant
                1 <= i <= n,
                tau.wf(),
                powers@.len() == i,
                forall|j: int| 0 <= j < i ==> #[trigger] powers@[j].wf() && powers@[j]@ == pow_mod_r(tau@, j as nat),
            decreases n - i,
        {
            assert(powers@[i - 1].wf());
            powers.push(scalar_mul(&powers[i - 1], tau));
            proof {
                let m = fr_modulus() as int;
                let k = (i - 1) as nat;
                reveal(pow);
                assert(pow(tau@ as int, (k + 1) as nat) == tau@ * pow(tau@ as int, k));
                vstd::arithmetic::div_mod::lemma_mul_mod_noop_left(pow(tau@ as int, k), tau@ as int, m);
                assert(pow(tau@ as int, k) * (tau@ as int) == (tau@ as int) * pow(tau@ as int, k)) by (nonlinear_arith);
                assert(powers@[i as int]@ == pow_mod_r(tau@, i as nat));
            }
            i += 1;
        }
        powers
    }

    fn mul_g1(&mut self, scalars: &Vec<Scalar>)
        requires
            old(self).wf(),
            scalars@.len() >= old(self).g1_powers@.len(),
            forall|i: int| 0 <= i < scalars@.len() ==> #[trigger] scalars@[i].wf(),
        ensures
            final(self).wf(),
            final(self).pubkey == old(self).pubkey,
            final(self).g2_powers == old(self).g2_powers,
            final(self).g1_powers@.len() == old(self).g1_powers@.len(),
            forall|i: int| 0 <= i < old(self).g1_powers@.len() ==> #[trigger] g1_is_affine_of(
                final(self).g1_powers@[i]@,
                g1_glv_mul(old(self).g1_powers@[i]@, scalars@[i]@),
            ),
    {
        let projective = par_mul_g1(&self.g1_powers, scalars);
        let ghost before = self.g1_powers@;
        self.g1_powers = g1_batch_to_affine(&projective);
        assert forall|i: int| 0 <= i < before.len() implies #[trigger] g1_is_affine_of(
            self.g1_powers@[i]@,
            g1_glv_mul(before[i]@, scalars@[i]@),
        ) by {
            assert(projective@[i].wf());
            assert(self.g1_powers@[i].wf());
        }
    }

    fn mul_g2(&mut self, scalars: &Vec<Scalar>)
        requires
            old(self).wf(),
            scalars@.len() >= old(self).g2_powers@.len(),
            forall|i: int| 0 <= i < scalars@.len() ==> #[trigger] scalars@[i].wf(),
        ensures
            final(self).wf(),
            final(self).pubkey == old(self).pubkey,
            final(self).g1_powers == old(self).g1_powers,
            final(self).g2_powers@.len() == old(self).g2_powers@.len(),
            forall|i: int| 0 <= i < old(self).g2_powers@.len() ==> #[trigger] g2_is_affine_of(
                final(self).g2_powers@[i]@,
                g2_smul(old(self).g2_powers@[i]@, scalars@[i]@),
            ),
    {
        let n = self.g2_powers.len();
        let mut projective: Vec<G2Proj> = Vec::with_capacity(n);
        let mut i: usize = 0;
        while i < n
            invariant
                n == self.g2_powers@.len(),
                i <= n,
                self.wf(),
                scalars@.len() >= n,
                forall|j: int| 0 <= j < scalars@.len() ==> #[trigger] scalars@[j].wf(),
                projective@.len() == i,
                forall|j: int| 0 <= j < i ==> #[trigger] projective@[j].wf()
                    && projective@[j]@ == g2_smul(self.g2_powers@[j]@, scalars@[j]@),
            decreases n - i,
        {
            projective.push(g2_mul(&self.g2_powers[i], &scalars[i]));
            i += 1;
        }
        let ghost before = self.g2_powers@;
        self.g2_powers = g2_batch_to_affine(&projective);
        assert forall|i: int| 0 <= i < before.len() implies #[trigger] g2_is_affine_of(
            self.g2_powers@[i]@,
            g2_smul(before[i]@, scalars@[i]@),
        ) by {
            assert(projective@[i].wf());
            assert(self.g2_powers@[i].wf());
        }
    }

    /// Multiplies the i-th power of each group by `tau^i` and the public key
    /// by `tau`. The secret `tau` and the table of its powers are wiped before
    /// returning.
    pub fn add_tau(&mut self, tau: &mut Scalar)
        requires
            old(self).wf(),
            old(tau).wf(),
        ensures
            final(tau)@ == 0,
            final(self).wf(),
            final(self).g1_powers@.len() == old(self).g1_powers@.len(),
            final(self).g2_powers@.len() == old(self).g2_powers@.len(),
            forall|i: int| 0 <= i < old(self).g1_powers@.len() ==> #[trigger] g1_is_affine_of(
                final(self).g1_powers@[i]@,
                g1_glv_mul(old(self).g1_powers@[i]@, pow_mod_r(old(tau)@, i as nat)),
            ),
            forall|i: int| 0 <= i < old(self).g2_powers@.len() ==> #[trigger] g2_is_affine_of(
                final(self).g2_powers@[i]@,
                g2_smul(old(self).g2_powers@[i]@, pow_mod_r(old(tau)@, i as nat)),
            ),
            final(self).pubkey@ == g2_affine_of(g2_smul(old(self).pubkey@, old(tau)@)),
    {
        let ghost t = tau@;
        let n1 = self.g1_powers.len();
        let n2 = self.g2_powers.len();
        let n_tau = if n1 > n2 { n1 } else { n2 };
        let mut powers = Self::pow_table(tau, n_tau);
        let ghost before = *self;
        self.mul_g1(&powers);
        let ghost middle = *self;
        self.mul_g2(&powers);
        self.pubkey = g2_to_affine(&g2_mul(&self.pubkey, tau));
        assert forall|i: int| 0 <= i < before.g1_powers@.len() implies #[trigger] g1_is_affine_of(
            self.g1_powers@[i]@,
            g1_glv_mul(before.g1_powers@[i]@, pow_mod_r(t, i as nat)),
        ) by {
            assert(powers@[i].wf());
            assert(powers@[i]@ == pow_mod_r(t, i as nat));
            assert(g1_is_affine_of(middle.g1_powers@[i]@, g1_glv_mul(before.g1_powers@[i]@, powers@[i]@)));
        }
        assert forall|i: int| 0 <= i < before.g2_powers@.len() implies #[trigger] g2_is_affine_of(
            self.g2_powers@[i]@,
            g2_smul(before.g2_powers@[i]@, pow_mod_r(t, i as nat)),
        ) by {
            assert(powers@[i].wf());
            assert(powers@[i]@ == pow_mod_r(t, i as nat));
            assert(g2_is_affine_of(self.g2_powers@[i]@, g2_smul(middle.g2_powers@[i]@, powers@[i]@)));
        }
        wipe_scalars(&mut powers);
        wipe_scalar(tau);
    }
}

/// The sizes the pairing checks need: two powers of each group at least, no
/// more G2 than G1 powers, and a running product to extend.
pub open spec fn sizes_supported(c: Contribution, t: Transcript) -> bool {
    &&& c.g1_powers@.len() >= 2
    &&& c.g2_powers@.len() >= 2
    &&& c.g2_powers@.len() <= c.g1_powers@.len()
    &&& t.products@.len() > 0
}

/// What verification of `c` against `t` decides with the random factors `f1`
/// (one per consecutive pair of G1 powers) and `f2` (one per G2 power):
/// - `e(g1[1], G2) = e(last product, pubkey)`;
/// - `e(sum f1[i] g1[i+1], G2) = e(sum f1[i] g1[i], g2[1])`;
/// - `e(sum f2[i] g1[i], G2) = e(G1, sum f2[i] g2[i])`.
pub open spec fn verify_outcome(c: Contribution, t: Transcript, f1: Seq<nat>, f2: Seq<nat>) -> Result<(), VerifyError> {
    let n1 = c.g1_powers@.len() as int;
    let n2 = c.g2_powers@.len() as int;
    let g1 = g1_views(c.g1_powers@);
    let g2 = g2_views(c.g2_powers@);
    if n1 != t.g1_powers@.len() || n2 != t.g2_powers@.len() {
        Err(VerifyError::PowerCountMismatch)
    } else if !sizes_supported(c, t) {
        Err(VerifyError::UnsupportedSize)
    } else if !pairing_eq_of(g1[1], g2_generator(), t.products@.last()@, c.pubkey@) {
        Err(VerifyError::PubkeyMismatch)
    } else if !pairing_eq_of(
        g1_affine_of(g1_msm_of(g1.subrange(1, n1), f1)),
        g2_generator(),
        g1_affine_of(g1_msm_of(g1.subrange(0, n1 - 1), f1)),
        g2[1],
    ) {
        Err(VerifyError::G1PowersInconsistent)
    } else if !pairing_eq_of(
        g1_affine_of(g1_msm_of(g1.subrange(0, n2), f2)),
        g2_generator(),
        g1_generator(),
        g2_affine_of(g2_msm_of(g2, f2)),
    ) {
        Err(VerifyError::G2PowersInconsistent)
    } else {
        Ok(())
    }
}

/// `n` scalars drawn uniformly at random.
fn random_factors(n: usize) -> (r: Vec<Scalar>)
    ensures
        r@.len() == n,
        forall|i: int| 0 <= i < n ==> #[trigger] r@[i].wf(),
{
    let mut r: Vec<Scalar> = Vec::with_capacity(n);
    let mut i: usize = 0;
    while i < n
        invariant
            i <= n,
            r@.len() == i,
            forall|j: int| 0 <= j < i ==> #[trigger] r@[j].wf(),
        decreases n - i,
    {
        r.push(random_scalar());
        i += 1;
    }
    r
}

impl Contribution {
    /// Checks that this contribution extends `transcript`, with the given
    /// random factors for the two batched power checks.
    pub fn verify_with_factors(&self, transcript: &Transcript, f1: &Vec<Scalar>, f2: &Vec<Scalar>) -> (r: Result<(), VerifyError>)
        requires
            self.wf(),
            transcript.wf(),
            f1@.len() + 1 == self.g1_powers@.len(),
            f2@.len() == self.g2_powers@.len(),
            forall|i: int| 0 <= i < f1@.len() ==> #[trigger] f1@[i].wf(),
            forall|i: int| 0 <= i < f2@.len() ==> #[trigger] f2@[i].wf(),
        ensures
            r == verify_outcome(*self, *transcript, scalar_views(f1@), scalar_views(f2@)),
    {
        let n1 = self.g1_powers.len();
        let n2 = self.g2_powers.len();
        if n1 != transcript.g1_powers.len() || n2 != transcript.g2_powers.len() {
            return Err(VerifyError::PowerCountMismatch);
        }
        if n1 < 2 || n2 < 2 || n2 > n1 || transcript.products.len() == 0 {
            return Err(VerifyError::UnsupportedSize);
        }
        let g1_gen = G1Point::generator();
        let g2_gen = G2Point::generator();
        let last = transcript.products.len() - 1;
        proof {
            assert(g1_views(self.g1_powers@)[1] == self.g1_powers@[1]@);
            assert(transcript.products@.last() == transcript.products@[last as int]);
            assert(transcript.products@[last as int].wf());
            assert(self.g1_powers@[1].wf());
        }
        if !pairing_eq(&self.g1_powers[1], &g2_gen, &transcript.products[last], &self.pubkey) {
            return Err(VerifyError::PubkeyMismatch);
        }
        let g1 = self.g1_powers.as_slice();
        let upper = slice_subrange(g1, 1, n1);
        let lower = slice_subrange(g1, 0, n1 - 1);
        proof {
            assert(upper@.map_values(|p: G1Point| p@) =~= g1_views(self.g1_powers@).subrange(1, n1 as int));
            assert(lower@.map_values(|p: G1Point| p@) =~= g1_views(self.g1_powers@).subrange(0, n1 - 1));
            assert(f1@.map_values(|s: Scalar| s@) =~= scalar_views(f1@));
            assert(self.g2_powers@[1].wf());
        }
        let lhs = g1_to_affine(&g1_msm(upper, f1.as_slice()));
        let rhs = g1_to_affine(&g1_msm(lower, f1.as_slice()));
        if !pairing_eq(&lhs, &g2_gen, &rhs, &self.g2_powers[1]) {
            return Err(VerifyError::G1PowersInconsistent);
        }
        let head = slice_subrange(g1, 0, n2);
        proof {
            assert(head@.map_values(|p: G1Point| p@) =~= g1_views(self.g1_powers@).subrange(0, n2 as int));
            assert(self.g2_powers@.map_values(|p: G2Point| p@) =~= g2_views(self.g2_powers@));
            assert(f2@.map_values(|s: Scalar| s@) =~= scalar_views(f2@));
        }
        let lhs = g1_to_affine(&g1_msm(head, f2.as_slice()));
        let rhs = g2_to_affine(&g2_msm(self.g2_powers.as_slice(), f2.as_slice()));
        if !pairing_eq(&lhs, &g2_gen, &g1_gen, &rhs) {
            return Err(VerifyError::G2PowersInconsistent);
        }
        Ok(())
    }

    /// Checks that this contribution extends `transcript`, with fresh random
    /// factors for the batched power checks.
    pub fn verify(&self, transcript: &Transcript) -> (r: Result<(), VerifyError>)
        requires
            self.wf(),
            transcript.wf(),
        ensures
            exists|f1: Seq<nat>, f2: Seq<nat>|
                {
                    &&& self.g1_powers@.len() == transcript.g1_powers@.len()
                        && self.g2_powers@.len() == transcript.g2_powers@.len()
                        && sizes_supported(*self, *transcript)
                        ==> f1.len() + 1 == self.g1_powers@.len()
                        && f2.len() == self.g2_powers@.len()
                    &&& forall|i: int| 0 <= i < f1.len() ==> #[trigger] f1[i] < fr_modulus()
                    &&& forall|i: int| 0 <= i < f2.len() ==> #[trigger] f2[i] < fr_modulus()
                    &&& r == verify_outcome(*self, *transcript, f1, f2)
                },
    {
        let n1 = self.g1_powers.len();
        let n2 = self.g2_powers.len();
        if n1 != transcript.g1_powers.len() || n2 != transcript.g2_powers.len() {
            assert(Err::<(), VerifyError>(VerifyError::PowerCountMismatch) == verify_outcome(*self, *transcript, Seq::empty(), Seq::empty()));
            return Err(VerifyError::PowerCountMismatch);
        }
        if n1 < 2 || n2 < 2 || n2 > n1 || transcript.products.len() == 0 {
            assert(Err::<(), VerifyError>(VerifyError::UnsupportedSize) == verify_outcome(*self, *transcript, Seq::empty(), Seq::empty()));
            return Err(VerifyError::UnsupportedSize);
        }
        let f1 = random_factors(n1 - 1);
        let f2 = random_factors(n2);
        let r = self.verify_with_factors(transcript, &f1, &f2);
        proof {
            let v1 = scalar_views(f1@);
            let v2 = scalar_views(f2@);
            assert forall|i: int| 0 <= i < v1.len() implies #[trigger] v1[i] < fr_modulus() by {
                assert(f1@[i].wf());
            }
            assert forall|i: int| 0 <= i < v2.len() implies #[trigger] v2[i] < fr_modulus() by {
                assert(f2@[i].wf());
            }
            assert(r == verify_outcome(*self, *transcript, v1, v2));
        }
        r
    }
}

} // verus!
