//! Cryptographic core of a powers-of-tau trusted-setup ceremony over BLS12-381:
//! the point codec, subgroup checks, GLV multiplication, the contribution
//! update and its pairing-based verification, and a batched pairing check.
pub mod codec;
pub mod constants;
pub mod contribution;
pub mod curve;
pub mod field;
pub mod glv;
pub mod pairing_check;
pub mod random;
pub mod subgroup;
pub mod wire;

pub use crate::codec::{decode_g1, decode_g2, encode_g1, encode_g2, ParseError};
pub use crate::contribution::{Contribution, Transcript, VerifyError};
pub use crate::curve::{G1Point, G1Proj, G2Point, G2Proj};
pub use crate::field::{Fq, Fq2, Scalar};
pub use crate::glv::{g1_mul_glv, g1_split, G1_LAMBDA_2};
pub use crate::pairing_check::BatchPairingCheck;
pub use crate::random::{rand_fr, rand_g1, rand_g2};
pub use crate::subgroup::{g1_endomorphism, g1_subgroup_check, g2_endomorphism, g2_subgroup_check};
pub use crate::wire::{
    ContributionError, ContributionJson, ContributionsError, ContributionsJson, PowersOfTau, SIZES,
};
