//! Compressed point encoding (zcash flag bits) to and from `0x`-prefixed hex.
//!
//! Byte 0 carries three flags: bit 7 "compressed" (must be set), bit 6 "point
//! at infinity", bit 5 "the larger of the two y roots". The other bits and
//! bytes are the big-endian x coordinate; for G2 the `u` coefficient comes
//! first.
use crate::curve::{
    g1_from_x, g1_on_curve, g1_rhs, g2_from_x, g2_rhs, G1Point, G1View, G2Point, G2View,
};
use crate::field::{
    be_val, fq2_is_larger, fq2_mul, fq_is_larger, fq_modulus, fq_modulus_bytes, fq_mul,
    fq_neg_exec, lemma_be_val_lex, Fq, Fq2,
};
use crate::subgroup::{g1_passes_subgroup_test, g1_subgroup_check, g2_passes_subgroup_test, g2_subgroup_check};
use vstd::prelude::*;
use vstd::string::{StrSliceExecFns, StringExecFns};

verus! {

/// Why a string is not the encoding of a point of the subgroup.
#[derive(Clone, Copy, Debug, PartialEq, Eq)]
pub enum ParseError {
    /// Not `2 + 2 * size` characters long.
    InvalidLength,
    /// Does not start with `0x`.
    MissingPrefix,
    /// A character after the prefix is not a hex digit.
    InvalidHexCharacter,
    /// The compression flag is clear.
    NotCompressed,
    /// The x coordinate is not below the field modulus.
    XNotInField,
    /// The infinity flag is set, but the sign flag too, or x is not zero.
    InvalidInfinity,
    /// x is zero, or no y is found for it: on G1 no point of the curve has
    /// this x; on G2 see `g2_root_found`.
    InvalidXCoordinate,
    /// The point is on the curve but outside the prime-order subgroup.
    InvalidSubgroup,
}

// ---------------------------------------------------------------------------
// Hex digits.
pub open spec fn is_lower_digit(c: char) -> bool {
    (0x30 <= c as u32 <= 0x39) || (0x61 <= c as u32 <= 0x66)
}

pub open spec fn is_hex_digit(c: char) -> bool {
    is_lower_digit(c) || (0x41 <= c as u32 <= 0x46)
}

pub open spec fn hex_digit_val(c: char) -> nat {
    if 0x30 <= c as u32 <= 0x39 {
        (c as u32 - 0x30) as nat
    } else if 0x61 <= c as u32 <= 0x66 {
        (c as u32 - 0x57) as nat
    } else {
        (c as u32 - 0x37) as nat
    }
}

/// The bytes that pairs of hex digits stand for.
pub open spec fn hex_bytes(s: Seq<char>) -> Seq<u8> {
    Seq::new(s.len() / 2, |i: int| (hex_digit_val(s[2 * i]) * 16 + hex_digit_val(s[2 * i + 1])) as u8)
}

/// `s` is `b` in lowercase hex, two digits per byte.
pub open spec fn is_lower_hex_of(s: Seq<char>, b: Seq<u8>) -> bool {
    &&& s.len() == 2 * b.len()
    &&& forall|i: int|
        0 <= i < b.len() ==> {
            &&& is_lower_digit(#[trigger] s[2 * i])
            &&& is_lower_digit(s[2 * i + 1])
            &&& hex_digit_val(s[2 * i]) == b[i] / 16
            &&& hex_digit_val(s[2 * i + 1]) == b[i] % 16
        }
}

/// Relies on `hex::decode_to_slice`: it fails on an odd length, on a length
/// other than twice the output's, and on a character that is no hex digit of
/// either case; else each byte is the value of two digits.
#[verifier::external_body]
fn hex_decode(s: &str, n: usize) -> (r: Option<Vec<u8>>)
    ensures
        r.is_some() <==> (s@.len() == 2 * n && forall|i: int| 0 <= i < s@.len() ==> is_hex_digit(#[trigger] s@[i])),
        r matches Some(b) ==> b@ == hex_bytes(s@),
{
    let mut out = vec![0u8; n];
    hex::decode_to_slice(s, &mut out).ok()?;
    Some(out)
}

/// Relies on `hex::encode`: two lowercase digits per byte.
#[verifier::external_body]
fn hex_encode(b: &[u8]) -> (r: String)
    ensures
        is_lower_hex_of(r@, b@),
{
    hex::encode(b)
}

proof fn lemma_lower_hex_decodes(s: Seq<char>, b: Seq<u8>)
    requires
        is_lower_hex_of(s, b),
    ensures
        forall|j: int| 0 <= j < s.len() ==> is_hex_digit(#[trigger] s[j]),
        hex_bytes(s) == b,
{
    assert forall|j: int| 0 <= j < s.len() implies is_hex_digit(#[trigger] s[j]) by {
        let i = j / 2;
        assert(is_lower_digit(s[2 * i]));
        if j % 2 == 1 {
            assert(j == 2 * i + 1);
        } else {
            assert(j == 2 * i);
        }
    }
    assert forall|i: int| 0 <= i < b.len() implies hex_bytes(s)[i] == b[i] by {
        assert(is_lower_digit(s[2 * i]));
    }
    assert(hex_bytes(s) =~= b);
}

// ---------------------------------------------------------------------------
// Byte order.
/// Whether the value of `a` is below that of `b`.
pub fn be_lt(a: &[u8; 48], b: &[u8; 48]) -> (r: bool)
    ensures
        r == (be_val(a@) < be_val(b@)),
{
    let mut i: usize = 0;
    while i < 48
        invariant
            0 <= i <= 48,
            a@.subrange(0, i as int) == b@.subrange(0, i as int),
        decreases 48 - i,
    {
        if a[i] < b[i] {
            proof {
                lemma_be_val_lex(a@, b@, i as int);
            }
            return true;
        }
        if a[i] > b[i] {
            proof {
                lemma_be_val_lex(b@, a@, i as int);
            }
            return false;
        }
        proof {
            assert(a@.subrange(0, i + 1) =~= a@.subrange(0, i as int).push(a@[i as int]));
            assert(b@.subrange(0, i + 1) =~= b@.subrange(0, i as int).push(b@[i as int]));
        }
        i += 1;
    }
    proof {
        assert(a@ =~= a@.subrange(0, 48));
        assert(b@ =~= b@.subrange(0, 48));
    }
    false
}

fn fq_modulus_array() -> (r: [u8; 48])
    ensures
        r@ == fq_modulus_bytes(),
{
    let r: [u8; 48] = [
        0x1a, 0x01, 0x11, 0xea, 0x39, 0x7f, 0xe6, 0x9a, 0x4b, 0x1b, 0xa7, 0xb6, 0x43, 0x4b, 0xac, 0xd7,
        0x64, 0x77, 0x4b, 0x84, 0xf3, 0x85, 0x12, 0xbf, 0x67, 0x30, 0xd2, 0xa0, 0xf6, 0xb0, 0xf6, 0x24,
        0x1e, 0xab, 0xff, 0xfe, 0xb1, 0x53, 0xff, 0xff, 0xb9, 0xfe, 0xff, 0xff, 0xff, 0xff, 0xaa, 0xab,
    ];
    assert(r@ =~= fq_modulus_bytes());
    r
}

/// Whether `y` is the larger of `y` and `-y`.
pub fn fq_is_larger_exec(y: &Fq) -> (r: bool)
    requires
        y.wf(),
    ensures
        r == fq_is_larger(y@),
{
    let n = fq_neg_exec(y);
    be_lt(&n.be, &y.be)
}

/// Whether `y` is the larger of `y` and `-y` in the order of Fq2.
pub fn fq2_is_larger_exec(y: &Fq2) -> (r: bool)
    requires
        y.wf(),
    ensures
        r == fq2_is_larger(y@),
{
    let n1 = fq_neg_exec(&y.c1);
    if be_lt(&n1.be, &y.c1.be) {
        true
    } else if be_lt(&y.c1.be, &n1.be) {
        false
    } else {
        let n0 = fq_neg_exec(&y.c0);
        be_lt(&n0.be, &y.c0.be)
    }
}

/// The 48 bytes of `v` from `start` on.
fn take48(v: &Vec<u8>, start: usize) -> (r: [u8; 48])
    requires
        start + 48 <= v@.len(),
    ensures
        r@ == v@.subrange(start as int, start + 48),
{
    let mut r = [0u8; 48];
    let mut i: usize = 0;
    let n = v.len();
    while i < 48
        invariant
            0 <= i <= 48,
            n == v@.len(),
            start + 48 <= n,
            forall|j: int| 0 <= j < i ==> r@[j] == v@[start + j],
        decreases 48 - i,
    {
        r[i] = v[start + i];
        i += 1;
    }
    assert(r@ =~= v@.subrange(start as int, start + 48));
    r
}

// ---------------------------------------------------------------------------
// What a string decodes to.
/// The bytes of a string of `2 + 2 * n` characters with the `0x` prefix, or
/// why it has none.
pub open spec fn frame(s: Seq<char>, n: nat) -> Result<Seq<u8>, ParseError> {
    if s.len() != 2 + 2 * n {
        Err(ParseError::InvalidLength)
    } else if s[0] != '0' || s[1] != 'x' {
        Err(ParseError::MissingPrefix)
    } else if !(forall|i: int| 2 <= i < s.len() ==> is_hex_digit(#[trigger] s[i])) {
        Err(ParseError::InvalidHexCharacter)
    } else {
        Ok(hex_bytes(s.subrange(2, s.len() as int)))
    }
}

pub open spec fn compressed(b: Seq<u8>) -> bool {
    b[0] & 0x80 != 0
}

pub open spec fn infinity_flag(b: Seq<u8>) -> bool {
    b[0] & 0x40 != 0
}

pub open spec fn larger_flag(b: Seq<u8>) -> bool {
    b[0] & 0x20 != 0
}

/// The first 48 bytes with the flag bits cleared.
pub open spec fn high_x_bytes(b: Seq<u8>) -> Seq<u8> {
    b.subrange(0, 48).update(0, b[0] & 0x1f)
}

pub open spec fn g1_x(b: Seq<u8>) -> nat {
    be_val(high_x_bytes(b))
}

/// The G2 x coordinate: the `u` coefficient first, then the constant one.
pub open spec fn g2_x(b: Seq<u8>) -> (nat, nat) {
    (be_val(b.subrange(48, 96)), be_val(high_x_bytes(b)))
}

/// `v` is the point of G1 that the string `s` encodes.
pub open spec fn g1_decodes_to(s: Seq<char>, v: G1View) -> bool {
    match frame(s, 48) {
        Err(_) => false,
        Ok(b) => {
            let x = g1_x(b);
            &&& compressed(b)
            &&& x < fq_modulus()
            &&& if infinity_flag(b) {
                !larger_flag(b) && x == 0 && v == (0nat, 1nat, true)
            } else {
                &&& x != 0
                &&& v.0 == x
                &&& !v.2
                &&& v.1 < fq_modulus()
                &&& fq_mul(v.1, v.1) == g1_rhs(x)
                &&& v.1 != 0 ==> fq_is_larger(v.1) == larger_flag(b)
                &&& g1_passes_subgroup_test(v)
            }
        },
    }
}

/// Why no point of G1 is encoded by `s`, where none is.
pub open spec fn g1_decode_error(s: Seq<char>) -> ParseError {
    match frame(s, 48) {
        Err(e) => e,
        Ok(b) => {
            let x = g1_x(b);
            if !compressed(b) {
                ParseError::NotCompressed
            } else if x >= fq_modulus() {
                ParseError::XNotInField
            } else if infinity_flag(b) {
                ParseError::InvalidInfinity
            } else if x == 0 || forall|y: nat| y < fq_modulus() ==> fq_mul(y, y) != g1_rhs(x) {
                ParseError::InvalidXCoordinate
            } else {
                ParseError::InvalidSubgroup
            }
        },
    }
}

/// `v` is the point of G2 that the string `s` encodes. Where `x^3 + 4(u + 1)`
/// lies in Fq, y is taken from Fq: the square root of arkworks looks there
/// alone, so such an x whose value is no square in Fq is rejected.
pub open spec fn g2_decodes_to(s: Seq<char>, v: G2View) -> bool {
    match frame(s, 96) {
        Err(_) => false,
        Ok(b) => {
            let x = g2_x(b);
            &&& compressed(b)
            &&& x.0 < fq_modulus() && x.1 < fq_modulus()
            &&& if infinity_flag(b) {
                !larger_flag(b) && x == (0nat, 0nat) && v == ((0nat, 0nat), (1nat, 0nat), true)
            } else {
                &&& x != (0nat, 0nat)
                &&& v.0 == x
                &&& !v.2
                &&& v.1.0 < fq_modulus() && v.1.1 < fq_modulus()
                &&& fq2_mul(v.1, v.1) == g2_rhs(x)
                &&& g2_rhs(x).1 == 0 ==> v.1.1 == 0
                &&& v.1 != (0nat, 0nat) ==> fq2_is_larger(v.1) == larger_flag(b)
                &&& g2_passes_subgroup_test(v)
            }
        },
    }
}

/// Whether a y is found for the G2 x coordinate `x`: a root in Fq of
/// `x^3 + 4(u + 1)` where that value lies in Fq, else a root in Fq2.
pub open spec fn g2_root_found(x: (nat, nat)) -> bool {
    if g2_rhs(x).1 == 0 {
        exists|b: nat| b < fq_modulus() && fq_mul(b, b) == g2_rhs(x).0
    } else {
        exists|y: (nat, nat)| y.0 < fq_modulus() && y.1 < fq_modulus() && fq2_mul(y, y) == g2_rhs(x)
    }
}

/// `(a, 0)` squared in Fq2 is `(a^2, 0)`.
proof fn lemma_fq2_square_of_fq(a: nat)
    requires
        a < fq_modulus(),
    ensures
        fq2_mul((a, 0nat), (a, 0nat)) == (fq_mul(a, a), 0nat),
{
    assert(fq_modulus() > 0) by {
        crate::field::lemma_be_val_nonzero(fq_modulus_bytes(), 0);
    }
    vstd::arithmetic::div_mod::lemma_small_mod(0, fq_modulus());
    vstd::arithmetic::div_mod::lemma_mod_bound((a * a) as int, fq_modulus() as int);
    vstd::arithmetic::div_mod::lemma_small_mod(fq_mul(a, a), fq_modulus());
    assert(a * 0 == 0 && 0 * a == 0);
}

/// Why no point of G2 is encoded by `s`, where none is.
pub open spec fn g2_decode_error(s: Seq<char>) -> ParseError {
    match frame(s, 96) {
        Err(e) => e,
        Ok(b) => {
            let x = g2_x(b);
            if !compressed(b) {
                ParseError::NotCompressed
            } else if x.0 >= fq_modulus() || x.1 >= fq_modulus() {
                ParseError::XNotInField
            } else if infinity_flag(b) {
                ParseError::InvalidInfinity
            } else if x == (0nat, 0nat) || !g2_root_found(x) {
                ParseError::InvalidXCoordinate
            } else {
                ParseError::InvalidSubgroup
            }
        },
    }
}

/// The modulus is odd.
proof fn lemma_fq_modulus_odd()
    ensures
        fq_modulus() % 2 == 1,
{
    let m = fq_modulus_bytes();
    assert(m.last() == 0xab);
    assert(be_val(m) == be_val(m.drop_last()) * 256 + 0xab);
}

/// Of two distinct roots `y` and `-y`, exactly one is the larger.
proof fn lemma_larger_of_neg(y: nat)
    requires
        0 < y < fq_modulus(),
    ensures
        fq_is_larger(crate::field::fq_neg(y)) == !fq_is_larger(y),
        crate::field::fq_neg(crate::field::fq_neg(y)) == y,
        crate::field::fq_neg(y) != y,
{
    lemma_fq_modulus_odd();
    vstd::arithmetic::div_mod::lemma_small_mod(y, fq_modulus());
    vstd::arithmetic::div_mod::lemma_small_mod((fq_modulus() - y) as nat, fq_modulus());
}

/// A root is fixed by its sign among the two roots `y` and `-y`.
proof fn lemma_root_unique(qy: nat, vy: nat, flag: bool)
    requires
        qy < fq_modulus(),
        vy < fq_modulus(),
        qy == vy || qy == crate::field::fq_neg(vy),
        vy != 0 ==> fq_is_larger(vy) == flag,
        qy != 0 ==> fq_is_larger(qy) == flag,
    ensures
        qy == vy,
{
    lemma_fq_modulus_odd();
    if qy != vy {
        if vy == 0 {
            vstd::arithmetic::div_mod::lemma_small_mod(0, fq_modulus());
        } else {
            vstd::arithmetic::div_mod::lemma_small_mod(vy, fq_modulus());
            lemma_larger_of_neg(vy);
        }
    }
}

/// A root in Fq2 is fixed by its sign among the two roots `y` and `-y`.
proof fn lemma_fq2_root_unique(qy: (nat, nat), vy: (nat, nat), flag: bool)
    requires
        qy.0 < fq_modulus() && qy.1 < fq_modulus(),
        vy.0 < fq_modulus() && vy.1 < fq_modulus(),
        qy == vy || qy == crate::field::fq2_neg(vy),
        vy != (0nat, 0nat) ==> fq2_is_larger(vy) == flag,
        qy != (0nat, 0nat) ==> fq2_is_larger(qy) == flag,
    ensures
        qy == vy,
{
    lemma_fq_modulus_odd();
    if qy != vy {
        vstd::arithmetic::div_mod::lemma_small_mod(0, fq_modulus());
        if vy == (0nat, 0nat) {
            assert(crate::field::fq2_neg(vy) == vy);
        } else {
            lemma_fq2_larger_of_neg(vy);
            if qy == (0nat, 0nat) {
                vstd::arithmetic::div_mod::lemma_small_mod(vy.0, fq_modulus());
                vstd::arithmetic::div_mod::lemma_small_mod(vy.1, fq_modulus());
            }
        }
    }
}

/// The bytes behind `0x` and `2 * n` hex digits.
fn decode_frame(s: &str, n: usize) -> (r: Result<Vec<u8>, ParseError>)
    requires
        n <= 96,
    ensures
        r matches Ok(b) ==> frame(s@, n as nat) == Ok::<Seq<u8>, ParseError>(b@) && b@.len() == n,
        r matches Err(e) ==> frame(s@, n as nat) == Err::<Seq<u8>, ParseError>(e),
{
    if s.unicode_len() != 2 + 2 * n {
        return Err(ParseError::InvalidLength);
    }
    if s.get_char(0) != '0' || s.get_char(1) != 'x' {
        return Err(ParseError::MissingPrefix);
    }
    let body = s.substring_char(2, 2 + 2 * n);
    proof {
        assert forall|i: int| 2 <= i < s@.len() implies (is_hex_digit(#[trigger] s@[i]) <==> is_hex_digit(body@[i - 2])) by {}
        if forall|j: int| 0 <= j < body@.len() ==> is_hex_digit(#[trigger] body@[j]) {
            assert forall|i: int| 2 <= i < s@.len() implies is_hex_digit(#[trigger] s@[i]) by {
                assert(is_hex_digit(body@[i - 2]));
            }
        }
        if forall|i: int| 2 <= i < s@.len() ==> is_hex_digit(#[trigger] s@[i]) {
            assert forall|j: int| 0 <= j < body@.len() implies is_hex_digit(#[trigger] body@[j]) by {
                assert(is_hex_digit(s@[j + 2]));
            }
        }
    }
    match hex_decode(body, n) {
        None => Err(ParseError::InvalidHexCharacter),
        Some(b) => Ok(b),
    }
}

/// Decodes a point of G1 from `0x` and 96 hex digits.
pub fn decode_g1(s: &str) -> (r: Result<G1Point, ParseError>)
    ensures
        match r {
            Ok(q) => q.wf() && g1_decodes_to(s@, q@) && forall|v: G1View| g1_decodes_to(s@, v) ==> v == q@,
            Err(e) => e == g1_decode_error(s@) && forall|v: G1View| !g1_decodes_to(s@, v),
        },
{
    let b = match decode_frame(s, 48) {
        Ok(b) => b,
        Err(e) => return Err(e),
    };
    let b0 = b[0];
    if b0 & 0x80 == 0 {
        return Err(ParseError::NotCompressed);
    }
    let mut xb = take48(&b, 0);
    xb[0] = b0 & 0x1f;
    assert(xb@ =~= high_x_bytes(b@));
    if !be_lt(&xb, &fq_modulus_array()) {
        return Err(ParseError::XNotInField);
    }
    let x = Fq { be: xb };
    if b0 & 0x40 != 0 {
        if b0 & 0x20 == 0 && x.is_zero() {
            return Ok(G1Point::identity());
        }
        return Err(ParseError::InvalidInfinity);
    }
    if x.is_zero() {
        return Err(ParseError::InvalidXCoordinate);
    }
    match g1_from_x(&x, b0 & 0x20 != 0) {
        None => Err(ParseError::InvalidXCoordinate),
        Some(q) => {
            proof {
                assert(frame(s@, 48) == Ok::<Seq<u8>, ParseError>(b@));
                assert(g1_x(b@) == x@);
                assert forall|v: G1View| g1_decodes_to(s@, v) implies v == q@ by {
                    assert(q.y@ == v.1 || q.y@ == crate::field::fq_neg(v.1));
                    lemma_root_unique(q.y@, v.1, larger_flag(b@));
                }
                assert(fq_mul(q.y@, q.y@) == g1_rhs(x@));
            }
            if g1_subgroup_check(&q) {
                Ok(q)
            } else {
                Err(ParseError::InvalidSubgroup)
            }
        },
    }
}

/// Decodes a point of G2 from `0x` and 192 hex digits.
pub fn decode_g2(s: &str) -> (r: Result<G2Point, ParseError>)
    ensures
        match r {
            Ok(q) => q.wf() && g2_decodes_to(s@, q@) && forall|v: G2View| g2_decodes_to(s@, v) ==> v == q@,
            Err(e) => e == g2_decode_error(s@) && forall|v: G2View| !g2_decodes_to(s@, v),
        },
{
    let b = match decode_frame(s, 96) {
        Ok(b) => b,
        Err(e) => return Err(e),
    };
    let b0 = b[0];
    if b0 & 0x80 == 0 {
        return Err(ParseError::NotCompressed);
    }
    let mut x1b = take48(&b, 0);
    x1b[0] = b0 & 0x1f;
    assert(x1b@ =~= high_x_bytes(b@));
    let x0b = take48(&b, 48);
    let m = fq_modulus_array();
    if !be_lt(&x0b, &m) || !be_lt(&x1b, &m) {
        return Err(ParseError::XNotInField);
    }
    let x = Fq2 { c0: Fq { be: x0b }, c1: Fq { be: x1b } };
    if b0 & 0x40 != 0 {
        if b0 & 0x20 == 0 && x.is_zero() {
            return Ok(G2Point::identity());
        }
        return Err(ParseError::InvalidInfinity);
    }
    if x.is_zero() {
        return Err(ParseError::InvalidXCoordinate);
    }
    match g2_from_x(&x, b0 & 0x20 != 0) {
        None => {
            proof {
                assert(frame(s@, 96) == Ok::<Seq<u8>, ParseError>(b@));
                assert(g2_x(b@) == x@);
                assert forall|v: G2View| !g2_decodes_to(s@, v) by {
                    if g2_decodes_to(s@, v) && g2_rhs(x@).1 == 0 {
                        lemma_fq2_square_of_fq(v.1.0);
                        assert(v.1 == (v.1.0, 0nat));
                    }
                }
            }
            Err(ParseError::InvalidXCoordinate)
        },
        Some(q) => {
            proof {
                assert(frame(s@, 96) == Ok::<Seq<u8>, ParseError>(b@));
                assert(g2_x(b@) == x@);
                assert forall|v: G2View| g2_decodes_to(s@, v) implies v == q@ by {
                    assert(q.y@ == v.1 || q.y@ == crate::field::fq2_neg(v.1));
                    lemma_fq2_root_unique(q.y@, v.1, larger_flag(b@));
                }
                assert(fq2_mul(q.y@, q.y@) == g2_rhs(x@));
                if g2_rhs(x@).1 == 0 {
                    lemma_fq2_square_of_fq(q.y@.0);
                    assert(q.y@ == (q.y@.0, 0nat));
                    assert(fq_mul(q.y@.0, q.y@.0) == g2_rhs(x@).0);
                }
                assert(g2_root_found(x@));
            }
            if g2_subgroup_check(&q) {
                Ok(q)
            } else {
                Err(ParseError::InvalidSubgroup)
            }
        },
    }
}

/// Of two distinct roots `y` and `-y` in Fq2, exactly one is the larger.
proof fn lemma_fq2_larger_of_neg(y: (nat, nat))
    requires
        y.0 < fq_modulus(),
        y.1 < fq_modulus(),
        y != (0nat, 0nat),
    ensures
        fq2_is_larger(crate::field::fq2_neg(y)) == !fq2_is_larger(y),
        crate::field::fq2_neg(y) != y,
{
    lemma_fq_modulus_odd();
    vstd::arithmetic::div_mod::lemma_small_mod(y.0, fq_modulus());
    vstd::arithmetic::div_mod::lemma_small_mod(y.1, fq_modulus());
    if y.1 != 0 {
        lemma_larger_of_neg(y.1);
    } else {
        lemma_larger_of_neg(y.0);
    }
}

/// A valid G1 point: canonical coordinates, and either the identity `(0, 1)`
/// or a point on the curve that passes the subgroup test with x not zero (a
/// point with x = 0 has order 3 and is never in the subgroup).
pub open spec fn g1_valid(p: G1Point) -> bool {
    &&& p.wf()
    &&& p.infinity ==> p@ == (0nat, 1nat, true)
    &&& !p.infinity ==> g1_on_curve(p@) && g1_passes_subgroup_test(p@) && p.x@ != 0
}

/// A valid G2 point, as for G1; where `x^3 + 4(u + 1)` lies in Fq, so does y.
pub open spec fn g2_valid(p: G2Point) -> bool {
    &&& p.wf()
    &&& p.infinity ==> p@ == ((0nat, 0nat), (1nat, 0nat), true)
    &&& !p.infinity ==> crate::curve::g2_on_curve(p@) && g2_passes_subgroup_test(p@) && p.x@ != (0nat, 0nat)
        && (g2_rhs(p.x@).1 == 0 ==> p.y@.1 == 0)
}

// ---------------------------------------------------------------------------
// Encoding.
/// The 48 bytes of a G1 point: its x with the flags, or the identity's `0xc0`.
pub open spec fn g1_encoded_bytes(p: G1Point) -> Seq<u8> {
    g1_compress(p.x.be@, p.y@, p.infinity)
}

/// The 48 bytes of the G1 point with x bytes `x`, y value `y` and the infinity flag.
pub open spec fn g1_compress(x: Seq<u8>, y: nat, infinity: bool) -> Seq<u8> {
    if infinity {
        Seq::new(48, |i: int| if i == 0 { 0xc0u8 } else { 0u8 })
    } else {
        x.update(0, x[0] | (if fq_is_larger(y) { 0xa0u8 } else { 0x80u8 }))
    }
}

/// The 96 bytes of a G2 point: the `u` coefficient of x with the flags, then
/// the constant coefficient; or the identity's `0xc0`.
pub open spec fn g2_encoded_bytes(p: G2Point) -> Seq<u8> {
    g2_compress(p.x.c0.be@, p.x.c1.be@, p.y@, p.infinity)
}

/// The 96 bytes of the G2 point with x bytes `x0 + x1 u`, y value `y` and the
/// infinity flag.
pub open spec fn g2_compress(x0: Seq<u8>, x1: Seq<u8>, y: (nat, nat), infinity: bool) -> Seq<u8> {
    if infinity {
        Seq::new(96, |i: int| if i == 0 { 0xc0u8 } else { 0u8 })
    } else {
        x1.update(0, x1[0] | (if fq2_is_larger(y) { 0xa0u8 } else { 0x80u8 })) + x0
    }
}

/// `s` is `0x` followed by the bytes `b` in lowercase hex.
pub open spec fn is_hex_encoding(s: Seq<char>, b: Seq<u8>) -> bool {
    &&& s.len() == 2 + 2 * b.len()
    &&& s[0] == '0' && s[1] == 'x'
    &&& is_lower_hex_of(s.subrange(2, s.len() as int), b)
}

/// `0x` and the lowercase hex of `b`.
fn prefixed_hex(b: &[u8]) -> (r: String)
    ensures
        is_hex_encoding(r@, b@),
{
    let h = hex_encode(b);
    let r = String::from_str("0x").concat(h.as_str());
    proof {
        reveal_strlit("0x");
        assert(r@.subrange(2, r@.len() as int) =~= h@);
    }
    r
}

/// Encodes a point of G1 as `0x` and 96 lowercase hex digits.
pub fn encode_g1(p: &G1Point) -> (r: String)
    requires
        p.wf(),
    ensures
        is_hex_encoding(r@, g1_encoded_bytes(*p)),
{
    let mut b = [0u8; 48];
    if p.infinity {
        b[0] = 0xc0;
        assert(b@ =~= g1_encoded_bytes(*p));
    } else {
        b = p.x.be;
        let flag: u8 = if fq_is_larger_exec(&p.y) { 0xa0 } else { 0x80 };
        b[0] = b[0] | flag;
        assert(b@ =~= g1_encoded_bytes(*p));
    }
    prefixed_hex(&b)
}

/// Encodes a point of G2 as `0x` and 192 lowercase hex digits.
pub fn encode_g2(p: &G2Point) -> (r: String)
    requires
        p.wf(),
    ensures
        is_hex_encoding(r@, g2_encoded_bytes(*p)),
{
    let mut b: Vec<u8> = Vec::new();
    let mut hi = [0u8; 48];
    let mut lo = [0u8; 48];
    if p.infinity {
        hi[0] = 0xc0;
    } else {
        hi = p.x.c1.be;
        let flag: u8 = if fq2_is_larger_exec(&p.y) { 0xa0 } else { 0x80 };
        hi[0] = hi[0] | flag;
        lo = p.x.c0.be;
    }
    let mut i: usize = 0;
    while i < 96
        invariant
            0 <= i <= 96,
            b@.len() == i,
            forall|j: int| 0 <= j < i ==> b@[j] == (if j < 48 { hi@[j] } else { lo@[j - 48] }),
        decreases 96 - i,
    {
        if i < 48 {
            b.push(hi[i]);
        } else {
            b.push(lo[i - 48]);
        }
        i += 1;
    }
    assert(b@ =~= g2_encoded_bytes(*p));
    prefixed_hex(b.as_slice())
}

/// A canonical value has a first byte below 0x20, which leaves room for the flags.
proof fn lemma_first_byte_small(a: Seq<u8>)
    requires
        a.len() == 48,
        be_val(a) < fq_modulus(),
    ensures
        a[0] <= 0x1a,
{
    if a[0] > 0x1a {
        assert(a.subrange(0, 0) =~= fq_modulus_bytes().subrange(0, 0));
        lemma_be_val_lex(fq_modulus_bytes(), a, 0);
    }
}

proof fn lemma_flag_bits(x0: u8)
    requires
        x0 <= 0x1a,
    ensures
        (x0 | 0xa0u8) & 0x80 != 0 && (x0 | 0xa0u8) & 0x40 == 0 && (x0 | 0xa0u8) & 0x20 != 0 && (x0 | 0xa0u8) & 0x1f == x0,
        (x0 | 0x80u8) & 0x80 != 0 && (x0 | 0x80u8) & 0x40 == 0 && (x0 | 0x80u8) & 0x20 == 0 && (x0 | 0x80u8) & 0x1f == x0,
        0xc0u8 & 0x80 != 0 && 0xc0u8 & 0x40 != 0 && 0xc0u8 & 0x20 == 0 && 0xc0u8 & 0x1f == 0,
{
    assert(x0 <= 0x1a ==> (x0 | 0xa0u8) & 0x80 != 0 && (x0 | 0xa0u8) & 0x40 == 0 && (x0 | 0xa0u8) & 0x20 != 0 && (x0 | 0xa0u8) & 0x1f == x0) by (bit_vector);
    assert(x0 <= 0x1a ==> (x0 | 0x80u8) & 0x80 != 0 && (x0 | 0x80u8) & 0x40 == 0 && (x0 | 0x80u8) & 0x20 == 0 && (x0 | 0x80u8) & 0x1f == x0) by (bit_vector);
    assert(0xc0u8 & 0x80 != 0 && 0xc0u8 & 0x40 != 0 && 0xc0u8 & 0x20 == 0 && 0xc0u8 & 0x1f == 0) by (bit_vector);
}

/// A hex encoding frames to its bytes.
proof fn lemma_frame_of_encoding(s: Seq<char>, b: Seq<u8>)
    requires
        is_hex_encoding(s, b),
    ensures
        frame(s, b.len()) == Ok::<Seq<u8>, ParseError>(b),
{
    let body = s.subrange(2, s.len() as int);
    lemma_lower_hex_decodes(body, b);
    assert forall|i: int| 2 <= i < s.len() implies is_hex_digit(#[trigger] s[i]) by {
        assert(is_hex_digit(body[i - 2]));
    }
}

/// Round trip on G1: a point of the subgroup (x = 0 excluded, as no such point
/// is in the subgroup) or the identity is what its encoding decodes to, so
/// `decode_g1(encode_g1(p))` returns `p`.
pub proof fn lemma_g1_round_trip(p: G1Point, s: Seq<char>)
    requires
        g1_valid(p),
        is_hex_encoding(s, g1_encoded_bytes(p)),
    ensures
        g1_decodes_to(s, p@),
{
    let b = g1_encoded_bytes(p);
    lemma_frame_of_encoding(s, b);
    if p.infinity {
        lemma_flag_bits(0);
        crate::field::lemma_be_val_zeros(high_x_bytes(b));
        assert(crate::field::fq_modulus() > 0) by {
            crate::field::lemma_be_val_nonzero(fq_modulus_bytes(), 0);
        }
    } else {
        lemma_first_byte_small(p.x.be@);
        lemma_flag_bits(p.x.be@[0]);
        assert(high_x_bytes(b) =~= p.x.be@);
    }
}

/// Round trip on G2: a point of the subgroup (x = 0 excluded) or the identity
/// is what its encoding decodes to, so `decode_g2(encode_g2(p))` returns `p`.
pub proof fn lemma_g2_round_trip(p: G2Point, s: Seq<char>)
    requires
        g2_valid(p),
        is_hex_encoding(s, g2_encoded_bytes(p)),
    ensures
        g2_decodes_to(s, p@),
{
    let b = g2_encoded_bytes(p);
    lemma_frame_of_encoding(s, b);
    if p.infinity {
        lemma_flag_bits(0);
        crate::field::lemma_be_val_zeros(high_x_bytes(b));
        crate::field::lemma_be_val_zeros(b.subrange(48, 96));
        assert(crate::field::fq_modulus() > 0) by {
            crate::field::lemma_be_val_nonzero(fq_modulus_bytes(), 0);
        }
    } else {
        lemma_first_byte_small(p.x.c1.be@);
        lemma_flag_bits(p.x.c1.be@[0]);
        assert(high_x_bytes(b) =~= p.x.c1.be@);
        assert(b.subrange(48, 96) =~= p.x.c0.be@);
    }
}

proof fn lemma_flags_determine_byte(b0: u8, x0: u8)
    requires
        b0 & 0x80 != 0,
        b0 & 0x40 == 0,
        b0 & 0x1f == x0,
    ensures
        (b0 & 0x20 != 0) ==> b0 == x0 | 0xa0u8,
        (b0 & 0x20 == 0) ==> b0 == x0 | 0x80u8,
{
    assert(b0 & 0x80 != 0 && b0 & 0x40 == 0 && b0 & 0x1f == x0 ==> ((b0 & 0x20 != 0) ==> b0 == x0 | 0xa0u8)) by (bit_vector);
    assert(b0 & 0x80 != 0 && b0 & 0x40 == 0 && b0 & 0x1f == x0 ==> ((b0 & 0x20 == 0) ==> b0 == x0 | 0x80u8)) by (bit_vector);
}

proof fn lemma_infinity_byte(b0: u8)
    requires
        b0 & 0x80 != 0,
        b0 & 0x40 != 0,
        b0 & 0x20 == 0,
        b0 & 0x1f == 0,
    ensures
        b0 == 0xc0,
{
    assert(b0 & 0x80 != 0 && b0 & 0x40 != 0 && b0 & 0x20 == 0 && b0 & 0x1f == 0 ==> b0 == 0xc0) by (bit_vector);
}

/// Decoding on G1 is canonical: a string that decodes to the point `p` (whose
/// y is not zero) carries exactly the bytes that `encode_g1(p)` writes, so
/// re-encoding a decoded string gives it back up to the case of its digits.
pub proof fn lemma_g1_decode_canonical(s: Seq<char>, p: G1Point)
    requires
        p.wf(),
        g1_decodes_to(s, p@),
        !p.infinity ==> p.y@ != 0,
    ensures
        frame(s, 48) == Ok::<Seq<u8>, ParseError>(g1_encoded_bytes(p)),
{
    let b = frame(s, 48)->Ok_0;
    let hx = high_x_bytes(b);
    if infinity_flag(b) {
        crate::field::lemma_be_val_zeros(Seq::new(48, |i: int| 0u8));
        crate::field::lemma_be_val_injective(hx, Seq::new(48, |i: int| 0u8));
        assert(hx[0] == 0);
        lemma_infinity_byte(b[0]);
        assert forall|i: int| 0 <= i < 48 implies b[i] == g1_encoded_bytes(p)[i] by {
            if i > 0 {
                assert(hx[i] == 0);
            }
        }
        assert(b =~= g1_encoded_bytes(p));
    } else {
        crate::field::lemma_be_val_injective(hx, p.x.be@);
        lemma_flags_determine_byte(b[0], p.x.be@[0]);
        assert forall|i: int| 0 <= i < 48 implies b[i] == g1_encoded_bytes(p)[i] by {
            if i > 0 {
                assert(hx[i] == p.x.be@[i]);
            }
        }
        assert(b =~= g1_encoded_bytes(p));
    }
}

/// Decoding on G2 is canonical: a string that decodes to the point `p` (whose
/// y is not zero) carries exactly the bytes that `encode_g2(p)` writes.
pub proof fn lemma_g2_decode_canonical(s: Seq<char>, p: G2Point)
    requires
        p.wf(),
        g2_decodes_to(s, p@),
        !p.infinity ==> p.y@ != (0nat, 0nat),
    ensures
        frame(s, 96) == Ok::<Seq<u8>, ParseError>(g2_encoded_bytes(p)),
{
    let b = frame(s, 96)->Ok_0;
    let hx = high_x_bytes(b);
    let lo = b.subrange(48, 96);
    let zeros = Seq::new(48, |i: int| 0u8);
    if infinity_flag(b) {
        crate::field::lemma_be_val_zeros(zeros);
        crate::field::lemma_be_val_injective(hx, zeros);
        crate::field::lemma_be_val_injective(lo, zeros);
        assert(hx[0] == 0);
        lemma_infinity_byte(b[0]);
        assert forall|i: int| 0 <= i < 96 implies b[i] == g2_encoded_bytes(p)[i] by {
            if 0 < i < 48 {
                assert(hx[i] == 0);
            } else if i >= 48 {
                assert(lo[i - 48] == 0);
            }
        }
        assert(b =~= g2_encoded_bytes(p));
    } else {
        crate::field::lemma_be_val_injective(hx, p.x.c1.be@);
        crate::field::lemma_be_val_injective(lo, p.x.c0.be@);
        lemma_flags_determine_byte(b[0], p.x.c1.be@[0]);
        assert forall|i: int| 0 <= i < 96 implies b[i] == g2_encoded_bytes(p)[i] by {
            if 0 < i < 48 {
                assert(hx[i] == p.x.c1.be@[i]);
            } else if i >= 48 {
                assert(lo[i - 48] == p.x.c0.be@[i - 48]);
            }
        }
        assert(b =~= g2_encoded_bytes(p));
    }
}

} // verus!
