//! Field elements as plain values: the base field Fq (canonical value in
//! big-endian bytes), its quadratic extension Fq2 = Fq[u]/(u^2 + 1), and the
//! scalar field Fr (canonical value in little-endian 64-bit limbs).
use ark_ff::{Field, PrimeField, UniformRand};
use vstd::arithmetic::power::pow;
use vstd::prelude::*;

verus! {

/// The value of a big-endian byte string.
pub open spec fn be_val(s: Seq<u8>) -> nat
    decreases s.len(),
{
    if s.len() == 0 {
        0
    } else {
        be_val(s.drop_last()) * 256 + s.last() as nat
    }
}

/// The value of a little-endian string of 64-bit limbs.
pub open spec fn limbs_val(s: Seq<u64>) -> nat
    decreases s.len(),
{
    if s.len() == 0 {
        0
    } else {
        s[0] as nat + 0x1_0000_0000_0000_0000 * limbs_val(s.drop_first())
    }
}

/// The base field modulus p, in the 48 big-endian bytes of its canonical encoding.
pub open spec fn fq_modulus_bytes() -> Seq<u8> {
    seq![
        0x1a, 0x01, 0x11, 0xea, 0x39, 0x7f, 0xe6, 0x9a, 0x4b, 0x1b, 0xa7, 0xb6, 0x43, 0x4b, 0xac, 0xd7,
        0x64, 0x77, 0x4b, 0x84, 0xf3, 0x85, 0x12, 0xbf, 0x67, 0x30, 0xd2, 0xa0, 0xf6, 0xb0, 0xf6, 0x24,
        0x1e, 0xab, 0xff, 0xfe, 0xb1, 0x53, 0xff, 0xff, 0xb9, 0xfe, 0xff, 0xff, 0xff, 0xff, 0xaa, 0xab,
    ]
}

/// The base field modulus p of BLS12-381.
pub open spec fn fq_modulus() -> nat {
    be_val(fq_modulus_bytes())
}

/// The scalar field modulus r of BLS12-381, the order of both prime subgroups.
pub open spec fn fr_modulus() -> nat {
    limbs_val(seq![0xffffffff00000001u64, 0x53bda402fffe5bfe, 0x3339d80809a1d805, 0x73eda753299d7d48])
}

pub open spec fn fq_neg(a: nat) -> nat {
    if a % fq_modulus() == 0 {
        0
    } else {
        (fq_modulus() - a % fq_modulus()) as nat
    }
}

pub open spec fn fq_mul(a: nat, b: nat) -> nat {
    (a * b) % fq_modulus()
}

pub open spec fn fq_add(a: nat, b: nat) -> nat {
    (a + b) % fq_modulus()
}

/// Whether `y` is the lexicographically larger of `y` and `-y`.
pub open spec fn fq_is_larger(y: nat) -> bool {
    y > fq_neg(y)
}

pub open spec fn fq2_neg(a: (nat, nat)) -> (nat, nat) {
    (fq_neg(a.0), fq_neg(a.1))
}

pub open spec fn fq2_add(a: (nat, nat), b: (nat, nat)) -> (nat, nat) {
    (fq_add(a.0, b.0), fq_add(a.1, b.1))
}

/// Product in Fq2, where u^2 = -1.
pub open spec fn fq2_mul(a: (nat, nat), b: (nat, nat)) -> (nat, nat) {
    (fq_add(fq_mul(a.0, b.0), fq_neg(fq_mul(a.1, b.1))), fq_add(fq_mul(a.0, b.1), fq_mul(a.1, b.0)))
}

/// Whether `y` is the larger of `y` and `-y` in the order of Fq2, which
/// compares the `u` coefficients first.
pub open spec fn fq2_is_larger(y: (nat, nat)) -> bool {
    if y.1 != fq_neg(y.1) {
        y.1 > fq_neg(y.1)
    } else {
        y.0 > fq_neg(y.0)
    }
}

/// An element of the base field, held as its value in 48 big-endian bytes.
#[derive(Clone, Copy, Debug, PartialEq, Eq)]
pub struct Fq {
    pub be: [u8; 48],
}

impl View for Fq {
    type V = nat;

    open spec fn view(&self) -> nat {
        be_val(self.be@)
    }
}

impl Fq {
    /// The value is canonical: below the modulus.
    pub open spec fn wf(&self) -> bool {
        self@ < fq_modulus()
    }

    pub fn zero() -> (r: Fq)
        ensures
            r@ == 0,
            r.wf(),
    {
        let r = Fq { be: [0u8; 48] };
        proof {
            lemma_be_val_zeros(r.be@);
            lemma_fq_modulus_gt_one();
        }
        r
    }

    pub fn one() -> (r: Fq)
        ensures
            r@ == 1,
            r.wf(),
    {
        let mut be = [0u8; 48];
        be[47] = 1;
        let r = Fq { be };
        proof {
            assert(r.be@.drop_last() =~= Seq::new(47, |i: int| 0u8));
            lemma_be_val_zeros(r.be@.drop_last());
            lemma_fq_modulus_gt_one();
        }
        r
    }

    /// Whether the value is zero.
    pub fn is_zero(&self) -> (r: bool)
        ensures
            r == (self@ == 0),
    {
        let mut i: usize = 0;
        while i < 48
            invariant
                0 <= i <= 48,
                forall|j: int| 0 <= j < i ==> self.be@[j] == 0,
            decreases 48 - i,
        {
            if self.be[i] != 0 {
                proof {
                    lemma_be_val_nonzero(self.be@, i as int);
                }
                return false;
            }
            i += 1;
        }
        proof {
            lemma_be_val_zeros(self.be@);
        }
        true
    }
}

/// All-zero bytes have value zero.
pub proof fn lemma_be_val_zeros(s: Seq<u8>)
    requires
        forall|j: int| 0 <= j < s.len() ==> s[j] == 0,
    ensures
        be_val(s) == 0,
    decreases s.len(),
{
    if s.len() > 0 {
        lemma_be_val_zeros(s.drop_last());
    }
}

/// A nonzero byte makes the value nonzero.
pub proof fn lemma_be_val_nonzero(s: Seq<u8>, i: int)
    requires
        0 <= i < s.len(),
        s[i] != 0,
    ensures
        be_val(s) > 0,
    decreases s.len(),
{
    if i < s.len() - 1 {
        lemma_be_val_nonzero(s.drop_last(), i);
    }
}

proof fn lemma_fq_modulus_gt_one()
    ensures
        fq_modulus() > 1,
{
    lemma_be_val_nonzero(fq_modulus_bytes(), 0);
    lemma_be_val_bound(fq_modulus_bytes().drop_last());
    assert(fq_modulus_bytes().last() == 0xab);
}

/// A byte string of length n has value below 256^n.
pub proof fn lemma_be_val_bound(s: Seq<u8>)
    ensures
        be_val(s) < pow(256, s.len()),
    decreases s.len(),
{
    reveal(pow);
    if s.len() > 0 {
        lemma_be_val_bound(s.drop_last());
        assert(pow(256, s.len()) == 256 * pow(256, (s.len() - 1) as nat));
        assert(be_val(s.drop_last()) * 256 + 256 <= pow(256, (s.len() - 1) as nat) * 256)
            by (nonlinear_arith)
            requires
                be_val(s.drop_last()) < pow(256, (s.len() - 1) as nat),
        ;
    }
}

/// Byte strings of one length that agree before `i` and differ at `i` are
/// ordered by their bytes at `i`.
pub proof fn lemma_be_val_lex(a: Seq<u8>, b: Seq<u8>, i: int)
    requires
        a.len() == b.len(),
        0 <= i < a.len(),
        a.subrange(0, i) == b.subrange(0, i),
        a[i] < b[i],
    ensures
        be_val(a) < be_val(b),
    decreases a.len(),
{
    if i == a.len() - 1 {
        assert(a.drop_last() =~= a.subrange(0, i));
        assert(b.drop_last() =~= b.subrange(0, i));
    } else {
        assert(a.drop_last().subrange(0, i) =~= a.subrange(0, i));
        assert(b.drop_last().subrange(0, i) =~= b.subrange(0, i));
        lemma_be_val_lex(a.drop_last(), b.drop_last(), i);
    }
}

/// Byte strings of one length with the same value are equal.
pub proof fn lemma_be_val_injective(a: Seq<u8>, b: Seq<u8>)
    requires
        a.len() == b.len(),
        be_val(a) == be_val(b),
    ensures
        a == b,
    decreases a.len(),
{
    if a.len() > 0 {
        lemma_be_val_injective(a.drop_last(), b.drop_last());
        assert(a =~= a.drop_last().push(a.last()));
        assert(b =~= b.drop_last().push(b.last()));
    }
}

/// An element of Fq2, `c0 + c1 * u`.
#[derive(Clone, Copy, Debug, PartialEq, Eq)]
pub struct Fq2 {
    pub c0: Fq,
    pub c1: Fq,
}

impl View for Fq2 {
    type V = (nat, nat);

    open spec fn view(&self) -> (nat, nat) {
        (self.c0@, self.c1@)
    }
}

impl Fq2 {
    pub open spec fn wf(&self) -> bool {
        self.c0.wf() && self.c1.wf()
    }

    pub fn is_zero(&self) -> (r: bool)
        ensures
            r == (self@ == (0nat, 0nat)),
    {
        self.c0.is_zero() && self.c1.is_zero()
    }
}

/// An element of the scalar field Fr, held as its value in little-endian limbs.
#[derive(Clone, Copy, Debug, PartialEq, Eq)]
pub struct Scalar {
    pub limbs: [u64; 4],
}

impl View for Scalar {
    type V = nat;

    open spec fn view(&self) -> nat {
        limbs_val(self.limbs@)
    }
}

impl Scalar {
    /// The value is canonical: below the group order.
    pub open spec fn wf(&self) -> bool {
        self@ < fr_modulus()
    }

    pub fn one() -> (r: Scalar)
        ensures
            r@ == 1,
            r.wf(),
    {
        let r = Scalar { limbs: [1u64, 0, 0, 0] };
        proof {
            reveal_with_fuel(limbs_val, 5);
            assert(r.limbs@.drop_first().drop_first().drop_first().drop_first() =~= Seq::<u64>::empty());
            assert(seq![0xffffffff00000001u64, 0x53bda402fffe5bfe, 0x3339d80809a1d805, 0x73eda753299d7d48].drop_first().drop_first().drop_first().drop_first() =~= Seq::<u64>::empty());
        }
        r
    }
}

#[verifier::external_type_specification]
#[verifier::external_body]
#[verifier::reject_recursive_types(P)]
pub struct ExFp384<P>(ark_ff::Fp384<P>);

#[verifier::external_type_specification]
#[verifier::external_body]
pub struct ExFqParameters(ark_bls12_381::FqParameters);

#[verifier::external_type_specification]
#[verifier::external_body]
#[verifier::reject_recursive_types(P)]
pub struct ExFp256<P>(ark_ff::Fp256<P>);

#[verifier::external_type_specification]
#[verifier::external_body]
pub struct ExFrParameters(ark_bls12_381::FrParameters);

/// Relies on ark-ff's `Fp384::from_repr`: a canonical value, given as six
/// little-endian limbs, becomes the field element of that value.
#[verifier::external_body]
pub(crate) fn fq_to_ark(a: &Fq) -> ark_bls12_381::Fq
    requires
        a.wf(),
{
    let mut limbs = [0u64; 6];
    for (i, chunk) in a.be.rchunks_exact(8).enumerate() {
        limbs[i] = u64::from_be_bytes(chunk.try_into().unwrap());
    }
    ark_bls12_381::Fq::from_repr(ark_ff::BigInteger384(limbs)).unwrap()
}

/// Relies on ark-ff's `Fp384::into_repr`: the canonical value, as six
/// little-endian limbs.
#[verifier::external_body]
pub(crate) fn fq_from_ark(a: &ark_bls12_381::Fq) -> Fq {
    let limbs = a.into_repr().0;
    let mut be = [0u8; 48];
    for (i, chunk) in be.rchunks_exact_mut(8).enumerate() {
        chunk.copy_from_slice(&limbs[i].to_be_bytes());
    }
    Fq { be }
}

/// Relies on ark-ff's `Fp256::from_repr`: a canonical value becomes the scalar of that value.
#[verifier::external_body]
pub(crate) fn fr_to_ark(a: &Scalar) -> ark_bls12_381::Fr
    requires
        a.wf(),
{
    ark_bls12_381::Fr::from_repr(ark_ff::BigInteger256(a.limbs)).unwrap()
}

/// Relies on ark-ff's `Fp256::into_repr`: the canonical value.
#[verifier::external_body]
pub(crate) fn fr_from_ark(a: &ark_bls12_381::Fr) -> Scalar {
    Scalar { limbs: a.into_repr().0 }
}

/// Relies on ark-ff's multiplication in Fq: the product modulo p.
#[verifier::external_body]
pub fn fq_mul_exec(a: &Fq, b: &Fq) -> (r: Fq)
    requires
        a.wf(),
        b.wf(),
    ensures
        r.wf(),
        r@ == fq_mul(a@, b@),
{
    fq_from_ark(&(fq_to_ark(a) * fq_to_ark(b)))
}

/// Relies on ark-ff's negation in Fq: `p - a`, and zero for zero.
#[verifier::external_body]
pub fn fq_neg_exec(a: &Fq) -> (r: Fq)
    requires
        a.wf(),
    ensures
        r.wf(),
        r@ == fq_neg(a@),
{
    fq_from_ark(&(-fq_to_ark(a)))
}

/// Relies on ark-ff's multiplication in Fq2 = Fq[u]/(u^2 + 1).
#[verifier::external_body]
pub fn fq2_mul_exec(a: &Fq2, b: &Fq2) -> (r: Fq2)
    requires
        a.wf(),
        b.wf(),
    ensures
        r.wf(),
        r@ == fq2_mul(a@, b@),
{
    let f = |c: &Fq2| ark_bls12_381::Fq2::new(fq_to_ark(&c.c0), fq_to_ark(&c.c1));
    let p = f(a) * f(b);
    Fq2 { c0: fq_from_ark(&p.c0), c1: fq_from_ark(&p.c1) }
}

/// Relies on ark-ff's `frobenius_map(1)` on Fq2: the p-th power, which is the
/// conjugate `c0 - c1 * u` (the coefficient table of the BLS12-381 Fq2 holds -1 there).
#[verifier::external_body]
pub fn fq2_frobenius(a: &Fq2) -> (r: Fq2)
    requires
        a.wf(),
    ensures
        r.wf(),
        r@ == (a@.0, fq_neg(a@.1)),
{
    let mut p = ark_bls12_381::Fq2::new(fq_to_ark(&a.c0), fq_to_ark(&a.c1));
    p.frobenius_map(1);
    Fq2 { c0: fq_from_ark(&p.c0), c1: fq_from_ark(&p.c1) }
}

/// Relies on ark-ff's multiplication in Fr: the product modulo r.
#[verifier::external_body]
pub fn scalar_mul(a: &Scalar, b: &Scalar) -> (r: Scalar)
    requires
        a.wf(),
        b.wf(),
    ensures
        r.wf(),
        r@ == (a@ * b@) % fr_modulus(),
{
    fr_from_ark(&(fr_to_ark(a) * fr_to_ark(b)))
}

/// Relies on ark-ff's `UniformRand` for Fr with rand's thread-local generator:
/// a canonical scalar, drawn uniformly.
#[verifier::external_body]
pub fn random_scalar() -> (r: Scalar)
    ensures
        r.wf(),
{
    fr_from_ark(&ark_bls12_381::Fr::rand(&mut rand::thread_rng()))
}

/// The powers `tau^i mod r` for `i < n`, in ascending order.
pub open spec fn is_power_table(powers: Seq<Scalar>, tau: nat, n: nat) -> bool {
    &&& powers.len() == n
    &&& forall|i: int| 0 <= i < n ==> #[trigger] powers[i]@ == pow(tau as int, i as nat) % (fr_modulus() as int)
    &&& forall|i: int| 0 <= i < n ==> #[trigger] powers[i].wf()
}

} // verus!
