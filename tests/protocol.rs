use kzg_ceremony_crypto::{
    decode_g1, rand_fr, rand_g1, rand_g2, BatchPairingCheck, Contribution, ContributionError,
    ContributionJson, ContributionsError, ContributionsJson, G1Point, G2Point, ParseError,
    PowersOfTau, Scalar, Transcript, VerifyError, SIZES,
};

const G1_GENERATOR: &str = "0x97f1d3a73197d7942695638c4fa9ac0fc3688c4f9774b905a14e3a3f171bac586c55e83ff97a1aeffb3af00adb22c6bb";
const G2_GENERATOR: &str = "0x93e02b6052719f607dacd3a088274f65596bd0d09920b61ab5da61bbdc7f5049334cf11213945d57e5ac7d055d042b7e024aa2b2f08f0a91260805272dc51051c6e47ad4fa403b02b4510b647ae3d1770bac0326a805bbefd48056c8c121bdb8";

fn nonzero_tau() -> Scalar {
    loop {
        let t = rand_fr();
        if t.limbs != [0u64; 4] {
            return t;
        }
    }
}

#[test]
fn verify() {
    let transcript = Transcript::new(32768, 65);
    let mut contrib = Contribution::new(32768, 65);
    assert_eq!(contrib.verify(&transcript), Ok(()));
    contrib.add_tau(&mut rand_fr());
    assert_eq!(contrib.verify(&transcript), Ok(()));
}

#[test]
fn update_of_genesis_verifies() {
    for _ in 0..3 {
        let transcript = Transcript::new(64, 8);
        let mut contrib = Contribution::new(64, 8);
        contrib.add_tau(&mut nonzero_tau());
        assert!(contrib.subgroup_check());
        assert_eq!(contrib.verify(&transcript), Ok(()));
    }
}

#[test]
fn add_tau_with_one_keeps_the_powers() {
    let mut contrib = Contribution::new(8, 3);
    let mut one = Scalar { limbs: [1, 0, 0, 0] };
    contrib.add_tau(&mut one);
    assert_eq!(one.limbs, [0u64; 4]);
    assert_eq!(contrib, Contribution::new(8, 3));
}

#[test]
fn add_tau_changes_every_power_but_the_first() {
    let mut contrib = Contribution::new(8, 3);
    contrib.add_tau(&mut nonzero_tau());
    assert_eq!(contrib.g1_powers[0], G1Point::generator());
    assert_eq!(contrib.g2_powers[0], G2Point::generator());
    for p in &contrib.g1_powers[1..] {
        assert_ne!(*p, G1Point::generator());
    }
    assert_ne!(contrib.pubkey, G2Point::generator());
}

#[test]
fn add_tau_wipes_the_secret() {
    let mut contrib = Contribution::new(4, 2);
    let mut tau = nonzero_tau();
    contrib.add_tau(&mut tau);
    assert_eq!(tau.limbs, [0u64; 4]);
}

#[test]
fn tampered_g1_power_is_rejected() {
    for k in [0usize, 1, 2, 17, 31] {
        let transcript = Transcript::new(32, 4);
        let mut contrib = Contribution::new(32, 4);
        contrib.add_tau(&mut nonzero_tau());
        contrib.g1_powers[k] = rand_g1();
        assert!(contrib.verify(&transcript).is_err(), "tampering at {} went through", k);
    }
}

#[test]
fn tampered_g2_power_and_pubkey_are_rejected() {
    let transcript = Transcript::new(16, 4);
    let mut contrib = Contribution::new(16, 4);
    contrib.add_tau(&mut nonzero_tau());
    let mut bad = contrib.clone();
    bad.g2_powers[2] = rand_g2();
    assert_eq!(bad.verify(&transcript), Err(VerifyError::G2PowersInconsistent));
    let mut bad = contrib.clone();
    bad.pubkey = rand_g2();
    assert_eq!(bad.verify(&transcript), Err(VerifyError::PubkeyMismatch));
    let mut bad = contrib.clone();
    bad.g1_powers[5] = rand_g1();
    assert_eq!(bad.verify(&transcript), Err(VerifyError::G1PowersInconsistent));
}

#[test]
fn verify_rejects_sizes() {
    let transcript = Transcript::new(16, 4);
    assert_eq!(Contribution::new(8, 4).verify(&transcript), Err(VerifyError::PowerCountMismatch));
    let transcript = Transcript::new(1, 1);
    assert_eq!(Contribution::new(1, 1).verify(&transcript), Err(VerifyError::UnsupportedSize));
}

#[test]
fn verify_with_factors_all_zero_accepts_any_consistent_pubkey() {
    let transcript = Transcript::new(4, 2);
    let mut contrib = Contribution::new(4, 2);
    contrib.add_tau(&mut nonzero_tau());
    let zero = Scalar { limbs: [0; 4] };
    assert_eq!(contrib.verify_with_factors(&transcript, &vec![zero; 3], &vec![zero; 2]), Ok(()));
    let one = Scalar { limbs: [1, 0, 0, 0] };
    contrib.g1_powers[3] = rand_g1();
    assert_eq!(
        contrib.verify_with_factors(&transcript, &vec![one; 3], &vec![one; 2]),
        Err(VerifyError::G1PowersInconsistent)
    );
}

#[test]
fn subgroup_check_accepts_genesis_and_identity() {
    let mut contrib = Contribution::new(4, 2);
    assert!(contrib.subgroup_check());
    let outside = decode_g1(&format!("0x80{}04", "00".repeat(46)));
    assert_eq!(outside, Err(ParseError::InvalidSubgroup));
    contrib.g1_powers[1] = G1Point::identity();
    assert!(contrib.subgroup_check());
}

#[test]
fn genesis_contribution_parses() {
    let json = ContributionJson::initial(4096, 65);
    assert!(json.powers_of_tau.g1_powers.iter().all(|s| s == G1_GENERATOR));
    assert!(json.powers_of_tau.g2_powers.iter().all(|s| s == G2_GENERATOR));
    assert_eq!(json.pot_pubkey, None);
    let c = json.parse().unwrap();
    assert_eq!(c.pubkey, G2Point::identity());
    assert_eq!(c.g1_powers.len(), 4096);
    assert!(c.g1_powers.iter().all(|p| *p == G1Point::generator()));
    assert_eq!(c.g2_powers.len(), 65);
    assert!(c.g2_powers.iter().all(|p| *p == G2Point::generator()));
}

#[test]
fn genesis_round_has_every_size_class() {
    let round = ContributionsJson::initial();
    assert_eq!(round.sub_contributions.len(), 4);
    for (c, (n1, n2)) in round.sub_contributions.iter().zip(SIZES.iter()) {
        assert_eq!((c.num_g1_powers, c.num_g2_powers), (*n1, *n2));
        assert_eq!(c.powers_of_tau.g1_powers.len(), *n1);
        assert_eq!(c.powers_of_tau.g2_powers.len(), *n2);
    }
}

fn small_round() -> ContributionsJson {
    ContributionsJson {
        sub_contributions: SIZES
            .iter()
            .map(|(n1, n2)| ContributionJson {
                num_g1_powers: *n1,
                num_g2_powers: *n2,
                powers_of_tau: PowersOfTau { g1_powers: vec![], g2_powers: vec![] },
                pot_pubkey: None,
            })
            .collect(),
    }
}

#[test]
fn round_with_wrong_count_is_rejected() {
    let mut round = small_round();
    round.sub_contributions.pop();
    assert_eq!(round.parse(), Err(ContributionsError::InvalidContributionCount(4, 3)));
}

#[test]
fn round_with_wrong_declared_sizes_is_rejected() {
    let mut round = small_round();
    round.sub_contributions[2].num_g1_powers = 5;
    assert_eq!(
        round.parse(),
        Err(ContributionsError::InvalidContribution(2, ContributionError::UnexpectedNumG1Powers(16384, 5)))
    );
    let mut round = small_round();
    round.sub_contributions[1].num_g2_powers = 64;
    assert_eq!(
        round.parse(),
        Err(ContributionsError::InvalidContribution(1, ContributionError::UnexpectedNumG2Powers(65, 64)))
    );
}

#[test]
fn round_reports_inconsistent_entry_by_index() {
    let round = small_round();
    assert_eq!(
        round.parse(),
        Err(ContributionsError::InvalidContribution(0, ContributionError::InconsistentNumG1Powers(4096, 0)))
    );
}

#[test]
fn entry_errors_carry_their_index() {
    let mut c = ContributionJson::initial(4, 3);
    c.num_g2_powers = 2;
    assert_eq!(c.parse(), Err(ContributionError::InconsistentNumG2Powers(2, 3)));
    let mut c = ContributionJson::initial(4, 3);
    c.powers_of_tau.g1_powers[2] = "0x12".to_string();
    assert_eq!(c.parse(), Err(ContributionError::InvalidG1Power(2, ParseError::InvalidLength)));
    let mut c = ContributionJson::initial(4, 3);
    c.powers_of_tau.g2_powers[1] = G2_GENERATOR.replacen("0x93", "0x13", 1);
    assert_eq!(c.parse(), Err(ContributionError::InvalidG2Power(1, ParseError::NotCompressed)));
    let mut c = ContributionJson::initial(4, 3);
    c.pot_pubkey = Some(G1_GENERATOR.to_string());
    assert_eq!(c.parse(), Err(ContributionError::InvalidPubKey(ParseError::InvalidLength)));
}

#[test]
fn contribution_survives_the_wire() {
    let mut contrib = Contribution::new(8, 3);
    contrib.add_tau(&mut nonzero_tau());
    let json = ContributionJson::from_contribution(&contrib);
    assert_eq!(json.num_g1_powers, 8);
    assert_eq!(json.parse(), Ok(contrib));
}

#[test]
fn batch_check_accepts_true_equalities() {
    let h = rand_g2();
    let mut check = BatchPairingCheck::new();
    for _ in 0..4 {
        let a = rand_g1();
        check.add_check((a, h), (a, h));
    }
    assert!(check.check());
    let g = G1Point::generator();
    let s = rand_fr();
    let sg = kzg_ceremony_crypto::curve::g1_to_affine(&kzg_ceremony_crypto::curve::g1_mul(&g, &s));
    let sh = kzg_ceremony_crypto::curve::g2_to_affine(&kzg_ceremony_crypto::curve::g2_mul(&G2Point::generator(), &s));
    let mut single = BatchPairingCheck::new();
    single.add_check((sg, G2Point::generator()), (g, sh));
    assert!(single.check());
}

#[test]
fn batch_check_rejects_one_false_equality() {
    for _ in 0..5 {
        let h = rand_g2();
        let mut check = BatchPairingCheck::new();
        for _ in 0..3 {
            let a = rand_g1();
            check.add_check((a, h), (a, h));
        }
        check.add_check((rand_g1(), h), (rand_g1(), h));
        assert!(!check.check());
    }
}

#[test]
fn batch_checks_merge() {
    let h = rand_g2();
    let a = rand_g1();
    let mut left = BatchPairingCheck::new();
    left.add_check((a, h), (a, h));
    let mut right = BatchPairingCheck::new();
    let b = rand_g1();
    right.add_check((b, h), (b, h));
    left.merge(right);
    assert!(left.check());
    let mut bad = BatchPairingCheck::new();
    bad.add_check((rand_g1(), h), (rand_g1(), h));
    let mut good = BatchPairingCheck::new();
    good.add_check((a, h), (a, h));
    good.merge(bad);
    assert!(!good.check());
}

#[test]
fn empty_batch_check_accepts() {
    assert!(BatchPairingCheck::new().check());
}

#[test]
fn wire_form_of_updated_contribution_parses_back() {
    let mut contrib = Contribution::new(6, 3);
    contrib.add_tau(&mut nonzero_tau());
    contrib.g1_powers[0] = G1Point::identity();
    let json = ContributionJson::from_contribution(&contrib);
    assert_eq!(json.parse(), Ok(contrib));
}
