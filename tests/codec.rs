use kzg_ceremony_crypto::{
    decode_g1, decode_g2, encode_g1, encode_g2, rand_g1, rand_g2, G1Point, G2Point, ParseError,
};

const G1_GENERATOR: &str = "0x97f1d3a73197d7942695638c4fa9ac0fc3688c4f9774b905a14e3a3f171bac586c55e83ff97a1aeffb3af00adb22c6bb";
const G2_GENERATOR: &str = "0x93e02b6052719f607dacd3a088274f65596bd0d09920b61ab5da61bbdc7f5049334cf11213945d57e5ac7d055d042b7e024aa2b2f08f0a91260805272dc51051c6e47ad4fa403b02b4510b647ae3d1770bac0326a805bbefd48056c8c121bdb8";

fn zeros_after(first: &str, n_bytes: usize) -> String {
    let mut s = String::from("0x");
    s.push_str(first);
    for _ in 1..n_bytes {
        s.push_str("00");
    }
    s
}

#[test]
fn generators_encode_to_the_standard_compressed_form() {
    assert_eq!(encode_g1(&G1Point::generator()), G1_GENERATOR);
    assert_eq!(encode_g2(&G2Point::generator()), G2_GENERATOR);
    assert_eq!(decode_g1(G1_GENERATOR), Ok(G1Point::generator()));
    assert_eq!(decode_g2(G2_GENERATOR), Ok(G2Point::generator()));
}

#[test]
fn round_trip_random_points() {
    for _ in 0..10 {
        let p = rand_g1();
        let s = encode_g1(&p);
        assert_eq!(s.len(), 98);
        assert_eq!(decode_g1(&s), Ok(p));
        let q = rand_g2();
        let s = encode_g2(&q);
        assert_eq!(s.len(), 194);
        assert_eq!(decode_g2(&s), Ok(q));
    }
}

#[test]
fn round_trip_identity() {
    let s = encode_g1(&G1Point::identity());
    assert_eq!(s, zeros_after("c0", 48));
    assert_eq!(decode_g1(&s), Ok(G1Point::identity()));
    let s = encode_g2(&G2Point::identity());
    assert_eq!(s, zeros_after("c0", 96));
    assert_eq!(decode_g2(&s), Ok(G2Point::identity()));
}

#[test]
fn round_trip_negated_point_flips_the_sign_flag() {
    let p = rand_g1();
    let n = p.neg();
    let a = encode_g1(&p);
    let b = encode_g1(&n);
    assert_ne!(a, b);
    assert_eq!(a[4..], b[4..]);
    assert_eq!(decode_g1(&b), Ok(n));
}

#[test]
fn decode_infinity_flag_gives_identity() {
    assert_eq!(decode_g1(&zeros_after("c0", 48)), Ok(G1Point::identity()));
}

#[test]
fn decode_zero_x_without_infinity_is_invalid_x() {
    assert_eq!(decode_g1(&zeros_after("80", 48)), Err(ParseError::InvalidXCoordinate));
    assert_eq!(decode_g2(&zeros_after("80", 96)), Err(ParseError::InvalidXCoordinate));
}

#[test]
fn decode_rejects_wrong_length() {
    assert_eq!(decode_g1("0x97f1"), Err(ParseError::InvalidLength));
    assert_eq!(decode_g1(G2_GENERATOR), Err(ParseError::InvalidLength));
    assert_eq!(decode_g2(G1_GENERATOR), Err(ParseError::InvalidLength));
}

#[test]
fn decode_rejects_missing_prefix() {
    let s = G1_GENERATOR.replacen("0x", "00", 1);
    assert_eq!(decode_g1(&s), Err(ParseError::MissingPrefix));
}

#[test]
fn decode_rejects_non_hex_digit() {
    let s = G1_GENERATOR.replacen("c6bb", "c6bg", 1);
    assert_eq!(decode_g1(&s), Err(ParseError::InvalidHexCharacter));
}

#[test]
fn decode_accepts_upper_case_digits() {
    let s = format!("0x{}", G1_GENERATOR[2..].to_uppercase());
    assert_eq!(decode_g1(&s), Ok(G1Point::generator()));
}

#[test]
fn decode_rejects_uncompressed_flag() {
    let s = G1_GENERATOR.replacen("0x97", "0x17", 1);
    assert_eq!(decode_g1(&s), Err(ParseError::NotCompressed));
}

#[test]
fn decode_rejects_x_not_below_modulus() {
    let modulus = "1a0111ea397fe69a4b1ba7b6434bacd764774b84f38512bf6730d2a0f6b0f6241eabfffeb153ffffb9feffffffffaaab";
    let s = format!("0x9{}", &modulus[1..]);
    assert_eq!(decode_g1(&s), Err(ParseError::XNotInField));
    let s = format!("0x9f{}", "ff".repeat(47));
    assert_eq!(decode_g1(&s), Err(ParseError::XNotInField));
}

#[test]
fn decode_rejects_malformed_infinity() {
    assert_eq!(decode_g1(&zeros_after("e0", 48)), Err(ParseError::InvalidInfinity));
    let s = format!("0xc0{}01", "00".repeat(46));
    assert_eq!(decode_g1(&s), Err(ParseError::InvalidInfinity));
    assert_eq!(decode_g2(&zeros_after("e0", 96)), Err(ParseError::InvalidInfinity));
}

#[test]
fn decode_rejects_x_without_curve_point() {
    // x = 1: 1 + 4 = 5 has no square root modulo p.
    let s = format!("0x80{}01", "00".repeat(46));
    assert_eq!(decode_g1(&s), Err(ParseError::InvalidXCoordinate));
}

#[test]
fn decode_rejects_point_outside_subgroup() {
    // x = 4: 64 + 4 = 68 is a square modulo p, but the point is not in G1.
    let s = format!("0x80{}04", "00".repeat(46));
    assert_eq!(decode_g1(&s), Err(ParseError::InvalidSubgroup));
}
