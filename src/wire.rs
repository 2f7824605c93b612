//! The wire shape of a ceremony round: per size class, the declared counts,
//! the powers as hex strings, and the optional public key; and its parsing
//! into contributions, with each failure reported at its index.
use crate::codec::{
    decode_g1, decode_g2, encode_g1, encode_g2, g1_compress, g1_valid, g2_valid,
    lemma_g1_round_trip, lemma_g2_round_trip, g1_decode_error, g1_decodes_to,
    g1_encoded_bytes, g2_compress, g2_decode_error, g2_decodes_to, g2_encoded_bytes,
    is_hex_encoding, ParseError,
};
use crate::constants::{g1_gen_x_bytes, g1_gen_y_bytes, g2_gen_x0_bytes, g2_gen_x1_bytes, g2_gen_y0_bytes, g2_gen_y1_bytes};
use crate::contribution::{all_g1_wf, all_g2_wf, g1_views, g2_views, Contribution};
use crate::curve::{G1Point, G1View, G2Point, G2View};
use crate::field::be_val;
use vstd::prelude::*;

verus! {

/// The size classes of the ceremony: (number of G1 powers, number of G2 powers).
pub const SIZES: [(usize, usize); 4] = [(4096, 65), (8192, 65), (16384, 65), (32768, 65)];

pub open spec fn sizes() -> Seq<(usize, usize)> {
    seq![(4096usize, 65usize), (8192usize, 65usize), (16384usize, 65usize), (32768usize, 65usize)]
}

/// The powers of one size class as hex strings.
#[derive(Clone, Debug, PartialEq, Eq)]
pub struct PowersOfTau {
    pub g1_powers: Vec<String>,
    pub g2_powers: Vec<String>,
}

/// One size class of a round as it travels.
#[derive(Clone, Debug, PartialEq, Eq)]
pub struct ContributionJson {
    pub num_g1_powers: usize,
    pub num_g2_powers: usize,
    pub powers_of_tau: PowersOfTau,
    pub pot_pubkey: Option<String>,
}

/// A whole round: one entry per size class, in the order of `SIZES`.
#[derive(Clone, Debug, PartialEq, Eq)]
pub struct ContributionsJson {
    pub sub_contributions: Vec<ContributionJson>,
}

/// Why one size class does not parse.
#[derive(Clone, Copy, Debug, PartialEq, Eq)]
pub enum ContributionError {
    /// Declared G1 count differs from the size class: (expected, declared).
    UnexpectedNumG1Powers(usize, usize),
    /// Declared G2 count differs from the size class: (expected, declared).
    UnexpectedNumG2Powers(usize, usize),
    /// Declared G1 count differs from the number of strings: (declared, actual).
    InconsistentNumG1Powers(usize, usize),
    /// Declared G2 count differs from the number of strings: (declared, actual).
    InconsistentNumG2Powers(usize, usize),
    /// The G1 power at this index does not decode.
    InvalidG1Power(usize, ParseError),
    /// The G2 power at this index does not decode.
    InvalidG2Power(usize, ParseError),
    /// The public key does not decode.
    InvalidPubKey(ParseError),
}

/// Why a round does not parse.
#[derive(Clone, Copy, Debug, PartialEq, Eq)]
pub enum ContributionsError {
    /// The size class at this index does not parse.
    InvalidContribution(usize, ContributionError),
    /// Not one entry per size class: (expected, actual).
    InvalidContributionCount(usize, usize),
    /// The document is not a round of the expected shape.
    InvalidSchema,
}

pub open spec fn strings(v: Seq<String>) -> Seq<Seq<char>> {
    v.map_values(|s: String| s@)
}

pub open spec fn g1_decodable(s: Seq<char>) -> bool {
    exists|v: G1View| g1_decodes_to(s, v)
}

pub open spec fn g2_decodable(s: Seq<char>) -> bool {
    exists|v: G2View| g2_decodes_to(s, v)
}

/// The counts agree with the strings.
pub open spec fn counts_consistent(c: ContributionJson) -> bool {
    c.powers_of_tau.g1_powers@.len() == c.num_g1_powers && c.powers_of_tau.g2_powers@.len() == c.num_g2_powers
}

/// Every string of `c` decodes.
pub open spec fn all_decodable(c: ContributionJson) -> bool {
    &&& forall|i: int| 0 <= i < c.powers_of_tau.g1_powers@.len() ==> g1_decodable(#[trigger] c.powers_of_tau.g1_powers@[i]@)
    &&& forall|i: int| 0 <= i < c.powers_of_tau.g2_powers@.len() ==> g2_decodable(#[trigger] c.powers_of_tau.g2_powers@[i]@)
    &&& c.pot_pubkey matches Some(k) ==> g2_decodable(k@)
}

/// `x` is what `c` parses to.
pub open spec fn parses_to(c: ContributionJson, x: Contribution) -> bool {
    let g1 = c.powers_of_tau.g1_powers@;
    let g2 = c.powers_of_tau.g2_powers@;
    &&& counts_consistent(c)
    &&& x.wf()
    &&& x.g1_powers@.len() == g1.len()
    &&& x.g2_powers@.len() == g2.len()
    &&& forall|i: int| 0 <= i < g1.len() ==> g1_decodes_to(#[trigger] g1[i]@, x.g1_powers@[i]@)
    &&& forall|i: int| 0 <= i < g2.len() ==> g2_decodes_to(#[trigger] g2[i]@, x.g2_powers@[i]@)
    &&& match c.pot_pubkey {
        None => x.pubkey@ == ((0nat, 0nat), (1nat, 0nat), true),
        Some(k) => g2_decodes_to(k@, x.pubkey@),
    }
}

/// `x` and `y` hold the same points.
pub open spec fn same_points(x: Contribution, y: Contribution) -> bool {
    &&& g1_views(x.g1_powers@) == g1_views(y.g1_powers@)
    &&& g2_views(x.g2_powers@) == g2_views(y.g2_powers@)
    &&& x.pubkey@ == y.pubkey@
}

/// `c` fails to parse with `e`: the first check that fails, in the order
/// counts, G1 powers by index, G2 powers by index, public key.
pub open spec fn fails_with(c: ContributionJson, e: ContributionError) -> bool {
    let g1 = c.powers_of_tau.g1_powers@;
    let g2 = c.powers_of_tau.g2_powers@;
    match e {
        ContributionError::InconsistentNumG1Powers(a, b) => a == c.num_g1_powers && b == g1.len() && a != b,
        ContributionError::InconsistentNumG2Powers(a, b) => g1.len() == c.num_g1_powers && a == c.num_g2_powers
            && b == g2.len() && a != b,
        ContributionError::InvalidG1Power(i, pe) => {
            &&& counts_consistent(c)
            &&& i < g1.len()
            &&& forall|j: int| 0 <= j < i ==> g1_decodable(#[trigger] g1[j]@)
            &&& !g1_decodable(g1[i as int]@)
            &&& pe == g1_decode_error(g1[i as int]@)
        },
        ContributionError::InvalidG2Power(i, pe) => {
            &&& counts_consistent(c)
            &&& forall|j: int| 0 <= j < g1.len() ==> g1_decodable(#[trigger] g1[j]@)
            &&& i < g2.len()
            &&& forall|j: int| 0 <= j < i ==> g2_decodable(#[trigger] g2[j]@)
            &&& !g2_decodable(g2[i as int]@)
            &&& pe == g2_decode_error(g2[i as int]@)
        },
        ContributionError::InvalidPubKey(pe) => {
            &&& counts_consistent(c)
            &&& forall|j: int| 0 <= j < g1.len() ==> g1_decodable(#[trigger] g1[j]@)
            &&& forall|j: int| 0 <= j < g2.len() ==> g2_decodable(#[trigger] g2[j]@)
            &&& c.pot_pubkey matches Some(k) && !g2_decodable(k@) && pe == g2_decode_error(k@)
        },
        _ => false,
    }
}

/// Decodes each string of `v` as a G1 point, or reports the first index that fails.
fn decode_all_g1(v: &Vec<String>) -> (r: Result<Vec<G1Point>, (usize, ParseError)>)
    ensures
        match r {
            Ok(x) => x@.len() == v@.len() && all_g1_wf(x@)
                && (forall|i: int| 0 <= i < v@.len() ==> g1_decodes_to(#[trigger] v@[i]@, x@[i]@))
                && forall|i: int, w: G1View| 0 <= i < v@.len() && #[trigger] g1_decodes_to(v@[i]@, w) ==> w == x@[i]@,
            Err((i, pe)) => i < v@.len() && (forall|j: int| 0 <= j < i ==> g1_decodable(#[trigger] v@[j]@))
                && !g1_decodable(v@[i as int]@) && pe == g1_decode_error(v@[i as int]@),
        },
{
    let mut out: Vec<G1Point> = Vec::with_capacity(v.len());
    let mut i: usize = 0;
    while i < v.len()
        invariant
            i <= v@.len(),
            out@.len() == i,
            all_g1_wf(out@),
            forall|j: int| 0 <= j < i ==> g1_decodes_to(#[trigger] v@[j]@, out@[j]@),
            forall|j: int, w: G1View| 0 <= j < i && #[trigger] g1_decodes_to(v@[j]@, w) ==> w == out@[j]@,
        decreases v@.len() - i,
    {
        match decode_g1(v[i].as_str()) {
            Ok(p) => out.push(p),
            Err(pe) => {
                proof {
                    assert forall|j: int| 0 <= j < i implies g1_decodable(#[trigger] v@[j]@) by {
                        assert(g1_decodes_to(v@[j]@, out@[j]@));
                    }
                }
                return Err((i, pe));
            },
        }
        i += 1;
    }
    Ok(out)
}

/// Decodes each string of `v` as a G2 point, or reports the first index that fails.
fn decode_all_g2(v: &Vec<String>) -> (r: Result<Vec<G2Point>, (usize, ParseError)>)
    ensures
        match r {
            Ok(x) => x@.len() == v@.len() && all_g2_wf(x@)
                && (forall|i: int| 0 <= i < v@.len() ==> g2_decodes_to(#[trigger] v@[i]@, x@[i]@))
                && forall|i: int, w: G2View| 0 <= i < v@.len() && #[trigger] g2_decodes_to(v@[i]@, w) ==> w == x@[i]@,
            Err((i, pe)) => i < v@.len() && (forall|j: int| 0 <= j < i ==> g2_decodable(#[trigger] v@[j]@))
                && !g2_decodable(v@[i as int]@) && pe == g2_decode_error(v@[i as int]@),
        },
{
    let mut out: Vec<G2Point> = Vec::with_capacity(v.len());
    let mut i: usize = 0;
    while i < v.len()
        invariant
            i <= v@.len(),
            out@.len() == i,
            all_g2_wf(out@),
            forall|j: int| 0 <= j < i ==> g2_decodes_to(#[trigger] v@[j]@, out@[j]@),
            forall|j: int, w: G2View| 0 <= j < i && #[trigger] g2_decodes_to(v@[j]@, w) ==> w == out@[j]@,
        decreases v@.len() - i,
    {
        match decode_g2(v[i].as_str()) {
            Ok(p) => out.push(p),
            Err(pe) => {
                proof {
                    assert forall|j: int| 0 <= j < i implies g2_decodable(#[trigger] v@[j]@) by {
                        assert(g2_decodes_to(v@[j]@, out@[j]@));
                    }
                }
                return Err((i, pe));
            },
        }
        i += 1;
    }
    Ok(out)
}

impl ContributionJson {
    /// Parses one size class: the counts must agree with the strings, every
    /// string must decode to a point of its subgroup, and an absent public key
    /// stands for the identity.
    pub fn parse(&self) -> (r: Result<Contribution, ContributionError>)
        ensures
            match r {
                Ok(x) => parses_to(*self, x) && forall|y: Contribution| #[trigger] parses_to(*self, y) ==> same_points(x, y),
                Err(e) => fails_with(*self, e),
            },
    {
        let g1 = &self.powers_of_tau.g1_powers;
        let g2 = &self.powers_of_tau.g2_powers;
        if g1.len() != self.num_g1_powers {
            return Err(ContributionError::InconsistentNumG1Powers(self.num_g1_powers, g1.len()));
        }
        if g2.len() != self.num_g2_powers {
            return Err(ContributionError::InconsistentNumG2Powers(self.num_g2_powers, g2.len()));
        }
        let g1_powers = match decode_all_g1(g1) {
            Ok(x) => x,
            Err((i, pe)) => return Err(ContributionError::InvalidG1Power(i, pe)),
        };
        let g2_powers = match decode_all_g2(g2) {
            Ok(x) => x,
            Err((i, pe)) => {
                proof {
                    assert forall|j: int| 0 <= j < g1@.len() implies g1_decodable(#[trigger] g1@[j]@) by {
                        assert(g1_decodes_to(g1@[j]@, g1_powers@[j]@));
                    }
                }
                return Err(ContributionError::InvalidG2Power(i, pe));
            },
        };
        let pubkey = match &self.pot_pubkey {
            None => G2Point::identity(),
            Some(k) => match decode_g2(k.as_str()) {
                Ok(p) => p,
                Err(pe) => {
                    proof {
                        assert forall|j: int| 0 <= j < g1@.len() implies g1_decodable(#[trigger] g1@[j]@) by {
                            assert(g1_decodes_to(g1@[j]@, g1_powers@[j]@));
                        }
                        assert forall|j: int| 0 <= j < g2@.len() implies g2_decodable(#[trigger] g2@[j]@) by {
                            assert(g2_decodes_to(g2@[j]@, g2_powers@[j]@));
                        }
                    }
                    return Err(ContributionError::InvalidPubKey(pe));
                },
            },
        };
        let r = Contribution { pubkey, g1_powers, g2_powers };
        proof {
            assert forall|y: Contribution| #[trigger] parses_to(*self, y) implies same_points(r, y) by {
                assert forall|i: int| 0 <= i < g1@.len() implies r.g1_powers@[i]@ == y.g1_powers@[i]@ by {
                    assert(g1_decodes_to(g1@[i]@, y.g1_powers@[i]@));
                }
                assert forall|i: int| 0 <= i < g2@.len() implies r.g2_powers@[i]@ == y.g2_powers@[i]@ by {
                    assert(g2_decodes_to(g2@[i]@, y.g2_powers@[i]@));
                }
                assert(g1_views(r.g1_powers@) =~= g1_views(y.g1_powers@));
                assert(g2_views(r.g2_powers@) =~= g2_views(y.g2_powers@));
            }
        }
        Ok(r)
    }
}

/// `s` is the encoding of the G1 generator.
pub open spec fn is_g1_generator_hex(s: Seq<char>) -> bool {
    is_hex_encoding(s, g1_compress(g1_gen_x_bytes(), be_val(g1_gen_y_bytes()), false))
}

/// `s` is the encoding of the G2 generator.
pub open spec fn is_g2_generator_hex(s: Seq<char>) -> bool {
    is_hex_encoding(
        s,
        g2_compress(g2_gen_x0_bytes(), g2_gen_x1_bytes(), (be_val(g2_gen_y0_bytes()), be_val(g2_gen_y1_bytes())), false),
    )
}

/// The genesis powers: `n1` and `n2` copies of the encoded generators.
pub open spec fn is_initial_powers(p: PowersOfTau, n1: nat, n2: nat) -> bool {
    &&& p.g1_powers@.len() == n1
    &&& p.g2_powers@.len() == n2
    &&& forall|i: int| 0 <= i < n1 ==> is_g1_generator_hex(#[trigger] p.g1_powers@[i]@)
    &&& forall|i: int| 0 <= i < n2 ==> is_g2_generator_hex(#[trigger] p.g2_powers@[i]@)
}

fn repeat_string(s: &String, n: usize) -> (r: Vec<String>)
    ensures
        r@.len() == n,
        forall|i: int| 0 <= i < n ==> #[trigger] r@[i]@ == s@,
{
    let mut r: Vec<String> = Vec::with_capacity(n);
    let mut i: usize = 0;
    while i < n
        invariant
            i <= n,
            r@.len() == i,
            forall|j: int| 0 <= j < i ==> #[trigger] r@[j]@ == s@,
        decreases n - i,
    {
        r.push(s.clone());
        i += 1;
    }
    r
}

/// `j` is the wire form of `c`: the counts, every point encoded in order,
/// and the public key.
pub open spec fn is_wire_form(j: ContributionJson, c: Contribution) -> bool {
    &&& j.num_g1_powers == c.g1_powers@.len()
    &&& j.num_g2_powers == c.g2_powers@.len()
    &&& j.powers_of_tau.g1_powers@.len() == c.g1_powers@.len()
    &&& j.powers_of_tau.g2_powers@.len() == c.g2_powers@.len()
    &&& forall|i: int| 0 <= i < c.g1_powers@.len() ==> is_hex_encoding(
        #[trigger] j.powers_of_tau.g1_powers@[i]@,
        g1_encoded_bytes(c.g1_powers@[i]),
    )
    &&& forall|i: int| 0 <= i < c.g2_powers@.len() ==> is_hex_encoding(
        #[trigger] j.powers_of_tau.g2_powers@[i]@,
        g2_encoded_bytes(c.g2_powers@[i]),
    )
    &&& j.pot_pubkey matches Some(k) && is_hex_encoding(k@, g2_encoded_bytes(c.pubkey))
}

/// Round trip of a whole contribution: when the public key and every power
/// are valid points, the wire form of `c` parses to `c` and fails no check,
/// so `ContributionJson::from_contribution(c).parse()` returns the points of `c`.
pub proof fn lemma_wire_round_trip(c: Contribution, j: ContributionJson)
    requires
        g2_valid(c.pubkey),
        forall|i: int| 0 <= i < c.g1_powers@.len() ==> g1_valid(#[trigger] c.g1_powers@[i]),
        forall|i: int| 0 <= i < c.g2_powers@.len() ==> g2_valid(#[trigger] c.g2_powers@[i]),
        is_wire_form(j, c),
    ensures
        parses_to(j, c),
        forall|e: ContributionError| !fails_with(j, e),
{
    let g1 = j.powers_of_tau.g1_powers@;
    let g2 = j.powers_of_tau.g2_powers@;
    assert forall|i: int| 0 <= i < g1.len() implies g1_decodes_to(#[trigger] g1[i]@, c.g1_powers@[i]@) by {
        assert(g1_valid(c.g1_powers@[i]));
        lemma_g1_round_trip(c.g1_powers@[i], g1[i]@);
    }
    assert forall|i: int| 0 <= i < g2.len() implies g2_decodes_to(#[trigger] g2[i]@, c.g2_powers@[i]@) by {
        assert(g2_valid(c.g2_powers@[i]));
        lemma_g2_round_trip(c.g2_powers@[i], g2[i]@);
    }
    let k = j.pot_pubkey->Some_0;
    lemma_g2_round_trip(c.pubkey, k@);
    assert forall|i: int| 0 <= i < c.g1_powers@.len() implies #[trigger] c.g1_powers@[i].wf() by {
        assert(g1_valid(c.g1_powers@[i]));
    }
    assert forall|i: int| 0 <= i < c.g2_powers@.len() implies #[trigger] c.g2_powers@[i].wf() by {
        assert(g2_valid(c.g2_powers@[i]));
    }
    assert forall|e: ContributionError| !fails_with(j, e) by {
        match e {
            ContributionError::InvalidG1Power(i, pe) => {
                if i < g1.len() {
                    assert(g1_decodes_to(g1[i as int]@, c.g1_powers@[i as int]@));
                }
            },
            ContributionError::InvalidG2Power(i, pe) => {
                if i < g2.len() {
                    assert(g2_decodes_to(g2[i as int]@, c.g2_powers@[i as int]@));
                }
            },
            ContributionError::InvalidPubKey(pe) => {
                assert(g2_decodes_to(k@, c.pubkey@));
            },
            _ => {},
        }
    }
}

impl PowersOfTau {
    /// The genesis powers: every power is the encoded generator of its group.
    pub fn initial(num_g1_powers: usize, num_g2_powers: usize) -> (r: PowersOfTau)
        ensures
            is_initial_powers(r, num_g1_powers as nat, num_g2_powers as nat),
    {
        let g1 = encode_g1(&G1Point::generator());
        let g2 = encode_g2(&G2Point::generator());
        PowersOfTau { g1_powers: repeat_string(&g1, num_g1_powers), g2_powers: repeat_string(&g2, num_g2_powers) }
    }
}

impl ContributionJson {
    /// The genesis entry of a size class, without a public key.
    pub fn initial(num_g1_powers: usize, num_g2_powers: usize) -> (r: ContributionJson)
        ensures
            r.num_g1_powers == num_g1_powers,
            r.num_g2_powers == num_g2_powers,
            is_initial_powers(r.powers_of_tau, num_g1_powers as nat, num_g2_powers as nat),
            r.pot_pubkey.is_none(),
    {
        ContributionJson {
            num_g1_powers,
            num_g2_powers,
            powers_of_tau: PowersOfTau::initial(num_g1_powers, num_g2_powers),
            pot_pubkey: None,
        }
    }

    /// The wire form of a contribution: the counts, each point encoded, and
    /// the public key.
    pub fn from_contribution(contribution: &Contribution) -> (r: ContributionJson)
        requires
            contribution.wf(),
        ensures
            is_wire_form(r, *contribution),
    {
        let mut g1_powers: Vec<String> = Vec::with_capacity(contribution.g1_powers.len());
        let mut i: usize = 0;
        while i < contribution.g1_powers.len()
            invariant
                contribution.wf(),
                i <= contribution.g1_powers@.len(),
                g1_powers@.len() == i,
                forall|j: int| 0 <= j < i ==> is_hex_encoding(#[trigger] g1_powers@[j]@, g1_encoded_bytes(contribution.g1_powers@[j])),
            decreases contribution.g1_powers@.len() - i,
        {
            g1_powers.push(encode_g1(&contribution.g1_powers[i]));
            i += 1;
        }
        let mut g2_powers: Vec<String> = Vec::with_capacity(contribution.g2_powers.len());
        let mut i: usize = 0;
        while i < contribution.g2_powers.len()
            invariant
                contribution.wf(),
                i <= contribution.g2_powers@.len(),
                g2_powers@.len() == i,
                forall|j: int| 0 <= j < i ==> is_hex_encoding(#[trigger] g2_powers@[j]@, g2_encoded_bytes(contribution.g2_powers@[j])),
            decreases contribution.g2_powers@.len() - i,
        {
            g2_powers.push(encode_g2(&contribution.g2_powers[i]));
            i += 1;
        }
        ContributionJson {
            num_g1_powers: contribution.g1_powers.len(),
            num_g2_powers: contribution.g2_powers.len(),
            pot_pubkey: Some(encode_g2(&contribution.pubkey)),
            powers_of_tau: PowersOfTau { g1_powers, g2_powers },
        }
    }
}

/// The declared counts of entry `i` are those of size class `i`.
pub open spec fn size_matches(c: ContributionsJson, i: int) -> bool {
    c.sub_contributions@[i].num_g1_powers == sizes()[i].0 && c.sub_contributions@[i].num_g2_powers == sizes()[i].1
}

/// Entry `i` parses.
pub open spec fn parse_succeeds(c: ContributionJson) -> bool {
    counts_consistent(c) && all_decodable(c)
}

/// The round `c` (one entry per size class) fails at entry `i` with `e`:
/// the sizes are checked for all entries first, then the entries are parsed in order.
pub open spec fn round_fails_at(c: ContributionsJson, i: int, e: ContributionError) -> bool {
    let subs = c.sub_contributions@;
    match e {
        ContributionError::UnexpectedNumG1Powers(a, b) => (forall|j: int| 0 <= j < i ==> #[trigger] size_matches(c, j))
            && a == sizes()[i].0 && b == subs[i].num_g1_powers && a != b,
        ContributionError::UnexpectedNumG2Powers(a, b) => (forall|j: int| 0 <= j < i ==> #[trigger] size_matches(c, j))
            && subs[i].num_g1_powers == sizes()[i].0 && a == sizes()[i].1 && b == subs[i].num_g2_powers && a != b,
        _ => (forall|j: int| 0 <= j < 4 ==> #[trigger] size_matches(c, j))
            && (forall|j: int| 0 <= j < i ==> parse_succeeds(#[trigger] subs[j]))
            && fails_with(subs[i], e),
    }
}

proof fn lemma_parses_to_succeeds(c: ContributionJson, x: Contribution)
    requires
        parses_to(c, x),
    ensures
        parse_succeeds(c),
{
    let g1 = c.powers_of_tau.g1_powers@;
    let g2 = c.powers_of_tau.g2_powers@;
    assert forall|i: int| 0 <= i < g1.len() implies g1_decodable(#[trigger] g1[i]@) by {
        assert(g1_decodes_to(g1[i]@, x.g1_powers@[i]@));
    }
    assert forall|i: int| 0 <= i < g2.len() implies g2_decodable(#[trigger] g2[i]@) by {
        assert(g2_decodes_to(g2[i]@, x.g2_powers@[i]@));
    }
    if let Some(k) = c.pot_pubkey {
        assert(g2_decodes_to(k@, x.pubkey@));
    }
}

impl ContributionsJson {
    /// The genesis round: one genesis entry per size class.
    pub fn initial() -> (r: ContributionsJson)
        ensures
            r.sub_contributions@.len() == 4,
            forall|i: int| 0 <= i < 4 ==> {
                &&& #[trigger] r.sub_contributions@[i].num_g1_powers == sizes()[i].0
                &&& r.sub_contributions@[i].num_g2_powers == sizes()[i].1
                &&& is_initial_powers(r.sub_contributions@[i].powers_of_tau, sizes()[i].0 as nat, sizes()[i].1 as nat)
                &&& r.sub_contributions@[i].pot_pubkey.is_none()
            },
    {
        let mut subs: Vec<ContributionJson> = Vec::with_capacity(4);
        let mut i: usize = 0;
        while i < 4
            invariant
                i <= 4,
                SIZES@ == sizes(),
                subs@.len() == i,
                forall|j: int| 0 <= j < i ==> {
                    &&& #[trigger] subs@[j].num_g1_powers == sizes()[j].0
                    &&& subs@[j].num_g2_powers == sizes()[j].1
                    &&& is_initial_powers(subs@[j].powers_of_tau, sizes()[j].0 as nat, sizes()[j].1 as nat)
                    &&& subs@[j].pot_pubkey.is_none()
                },
            decreases 4 - i,
        {
            let (n1, n2) = SIZES[i];
            subs.push(ContributionJson::initial(n1, n2));
            i += 1;
        }
        ContributionsJson { sub_contributions: subs }
    }

    /// Parses a round: one entry per size class, each with the counts of its
    /// class, each parsing; the first failure is reported with its index.
    pub fn parse(&self) -> (r: Result<Vec<Contribution>, ContributionsError>)
        ensures
            match r {
                Ok(v) => {
                    &&& self.sub_contributions@.len() == 4
                    &&& v@.len() == 4
                    &&& forall|i: int| 0 <= i < 4 ==> #[trigger] size_matches(*self, i)
                        && parses_to(self.sub_contributions@[i], v@[i])
                },
                Err(ContributionsError::InvalidContributionCount(a, b)) => a == 4 && b == self.sub_contributions@.len()
                    && a != b,
                Err(ContributionsError::InvalidContribution(i, e)) => self.sub_contributions@.len() == 4 && i < 4
                    && round_fails_at(*self, i as int, e),
                Err(ContributionsError::InvalidSchema) => false,
            },
    {
        let subs = &self.sub_contributions;
        if subs.len() != 4 {
            return Err(ContributionsError::InvalidContributionCount(4, subs.len()));
        }
        assert(SIZES@ == sizes());
        let mut i: usize = 0;
        while i < 4
            invariant
                i <= 4,
                subs@.len() == 4,
                subs == &self.sub_contributions,
                SIZES@ == sizes(),
                forall|j: int| 0 <= j < i ==> #[trigger] size_matches(*self, j),
            decreases 4 - i,
        {
            let (n1, n2) = SIZES[i];
            if subs[i].num_g1_powers != n1 {
                return Err(ContributionsError::InvalidContribution(
                    i,
                    ContributionError::UnexpectedNumG1Powers(n1, subs[i].num_g1_powers),
                ));
            }
            if subs[i].num_g2_powers != n2 {
                return Err(ContributionsError::InvalidContribution(
                    i,
                    ContributionError::UnexpectedNumG2Powers(n2, subs[i].num_g2_powers),
                ));
            }
            i += 1;
        }
        let mut out: Vec<Contribution> = Vec::with_capacity(4);
        let mut i: usize = 0;
        while i < 4
            invariant
                i <= 4,
                subs@.len() == 4,
                subs == &self.sub_contributions,
                forall|j: int| 0 <= j < 4 ==> #[trigger] size_matches(*self, j),
                out@.len() == i,
                forall|j: int| 0 <= j < i ==> parses_to(#[trigger] subs@[j], out@[j]),
            decreases 4 - i,
        {
            match subs[i].parse() {
                Ok(x) => out.push(x),
                Err(e) => {
                    proof {
                        assert forall|j: int| 0 <= j < i implies parse_succeeds(#[trigger] subs@[j]) by {
                            lemma_parses_to_succeeds(subs@[j], out@[j]);
                        }
                    }
                    return Err(ContributionsError::InvalidContribution(i, e));
                },
            }
            i += 1;
        }
        Ok(out)
    }
}

} // verus!
