//! Fixed field constants of BLS12-381: the generators' coordinates and the
//! coefficients of the endomorphisms used by the subgroup checks and GLV.
use crate::field::{be_val, fq_modulus_bytes, lemma_be_val_lex, Fq};
use vstd::prelude::*;

verus! {

pub open spec fn g1_gen_x_bytes() -> Seq<u8> {
    seq![0x17, 0xf1, 0xd3, 0xa7, 0x31, 0x97, 0xd7, 0x94, 0x26, 0x95, 0x63, 0x8c, 0x4f, 0xa9, 0xac, 0x0f, 0xc3, 0x68, 0x8c, 0x4f, 0x97, 0x74, 0xb9, 0x05, 0xa1, 0x4e, 0x3a, 0x3f, 0x17, 0x1b, 0xac, 0x58, 0x6c, 0x55, 0xe8, 0x3f, 0xf9, 0x7a, 0x1a, 0xef, 0xfb, 0x3a, 0xf0, 0x0a, 0xdb, 0x22, 0xc6, 0xbb]
}

pub open spec fn g1_gen_y_bytes() -> Seq<u8> {
    seq![0x08, 0xb3, 0xf4, 0x81, 0xe3, 0xaa, 0xa0, 0xf1, 0xa0, 0x9e, 0x30, 0xed, 0x74, 0x1d, 0x8a, 0xe4, 0xfc, 0xf5, 0xe0, 0x95, 0xd5, 0xd0, 0x0a, 0xf6, 0x00, 0xdb, 0x18, 0xcb, 0x2c, 0x04, 0xb3, 0xed, 0xd0, 0x3c, 0xc7, 0x44, 0xa2, 0x88, 0x8a, 0xe4, 0x0c, 0xaa, 0x23, 0x29, 0x46, 0xc5, 0xe7, 0xe1]
}

pub open spec fn g2_gen_x0_bytes() -> Seq<u8> {
    seq![0x02, 0x4a, 0xa2, 0xb2, 0xf0, 0x8f, 0x0a, 0x91, 0x26, 0x08, 0x05, 0x27, 0x2d, 0xc5, 0x10, 0x51, 0xc6, 0xe4, 0x7a, 0xd4, 0xfa, 0x40, 0x3b, 0x02, 0xb4, 0x51, 0x0b, 0x64, 0x7a, 0xe3, 0xd1, 0x77, 0x0b, 0xac, 0x03, 0x26, 0xa8, 0x05, 0xbb, 0xef, 0xd4, 0x80, 0x56, 0xc8, 0xc1, 0x21, 0xbd, 0xb8]
}

pub open spec fn g2_gen_x1_bytes() -> Seq<u8> {
    seq![0x13, 0xe0, 0x2b, 0x60, 0x52, 0x71, 0x9f, 0x60, 0x7d, 0xac, 0xd3, 0xa0, 0x88, 0x27, 0x4f, 0x65, 0x59, 0x6b, 0xd0, 0xd0, 0x99, 0x20, 0xb6, 0x1a, 0xb5, 0xda, 0x61, 0xbb, 0xdc, 0x7f, 0x50, 0x49, 0x33, 0x4c, 0xf1, 0x12, 0x13, 0x94, 0x5d, 0x57, 0xe5, 0xac, 0x7d, 0x05, 0x5d, 0x04, 0x2b, 0x7e]
}

pub open spec fn g2_gen_y0_bytes() -> Seq<u8> {
    seq![0x0c, 0xe5, 0xd5, 0x27, 0x72, 0x7d, 0x6e, 0x11, 0x8c, 0xc9, 0xcd, 0xc6, 0xda, 0x2e, 0x35, 0x1a, 0xad, 0xfd, 0x9b, 0xaa, 0x8c, 0xbd, 0xd3, 0xa7, 0x6d, 0x42, 0x9a, 0x69, 0x51, 0x60, 0xd1, 0x2c, 0x92, 0x3a, 0xc9, 0xcc, 0x3b, 0xac, 0xa2, 0x89, 0xe1, 0x93, 0x54, 0x86, 0x08, 0xb8, 0x28, 0x01]
}

pub open spec fn g2_gen_y1_bytes() -> Seq<u8> {
    seq![0x06, 0x06, 0xc4, 0xa0, 0x2e, 0xa7, 0x34, 0xcc, 0x32, 0xac, 0xd2, 0xb0, 0x2b, 0xc2, 0x8b, 0x99, 0xcb, 0x3e, 0x28, 0x7e, 0x85, 0xa7, 0x63, 0xaf, 0x26, 0x74, 0x92, 0xab, 0x57, 0x2e, 0x99, 0xab, 0x3f, 0x37, 0x0d, 0x27, 0x5c, 0xec, 0x1d, 0xa1, 0xaa, 0xa9, 0x07, 0x5f, 0xf0, 0x5f, 0x79, 0xbe]
}

pub open spec fn beta_bytes() -> Seq<u8> {
    seq![0x00, 0x00, 0x00, 0x00, 0x00, 0x00, 0x00, 0x00, 0x5f, 0x19, 0x67, 0x2f, 0xdf, 0x76, 0xce, 0x51, 0xba, 0x69, 0xc6, 0x07, 0x6a, 0x0f, 0x77, 0xea, 0xdd, 0xb3, 0xa9, 0x3b, 0xe6, 0xf8, 0x96, 0x88, 0xde, 0x17, 0xd8, 0x13, 0x62, 0x0a, 0x00, 0x02, 0x2e, 0x01, 0xff, 0xff, 0xff, 0xfe, 0xff, 0xfe]
}

pub open spec fn psi_x_bytes() -> Seq<u8> {
    seq![0x1a, 0x01, 0x11, 0xea, 0x39, 0x7f, 0xe6, 0x99, 0xec, 0x02, 0x40, 0x86, 0x63, 0xd4, 0xde, 0x85, 0xaa, 0x0d, 0x85, 0x7d, 0x89, 0x75, 0x9a, 0xd4, 0x89, 0x7d, 0x29, 0x65, 0x0f, 0xb8, 0x5f, 0x9b, 0x40, 0x94, 0x27, 0xeb, 0x4f, 0x49, 0xff, 0xfd, 0x8b, 0xfd, 0x00, 0x00, 0x00, 0x00, 0xaa, 0xad]
}

pub open spec fn psi_y0_bytes() -> Seq<u8> {
    seq![0x13, 0x52, 0x03, 0xe6, 0x01, 0x80, 0xa6, 0x8e, 0xe2, 0xe9, 0xc4, 0x48, 0xd7, 0x7a, 0x2c, 0xd9, 0x1c, 0x3d, 0xed, 0xd9, 0x30, 0xb1, 0xcf, 0x60, 0xef, 0x39, 0x64, 0x89, 0xf6, 0x1e, 0xb4, 0x5e, 0x30, 0x44, 0x66, 0xcf, 0x3e, 0x67, 0xfa, 0x0a, 0xf1, 0xee, 0x7b, 0x04, 0x12, 0x1b, 0xde, 0xa2]
}

pub open spec fn psi_y1_bytes() -> Seq<u8> {
    seq![0x06, 0xaf, 0x0e, 0x04, 0x37, 0xff, 0x40, 0x0b, 0x68, 0x31, 0xe3, 0x6d, 0x6b, 0xd1, 0x7f, 0xfe, 0x48, 0x39, 0x5d, 0xab, 0xc2, 0xd3, 0x43, 0x5e, 0x77, 0xf7, 0x6e, 0x17, 0x00, 0x92, 0x41, 0xc5, 0xee, 0x67, 0x99, 0x2f, 0x72, 0xec, 0x05, 0xf4, 0xc8, 0x10, 0x84, 0xfb, 0xed, 0xe3, 0xcc, 0x09]
}

pub fn g1_gen_x() -> (r: Fq)
    ensures
        r.be@ == g1_gen_x_bytes(),
        r.wf(),
{
    let r = Fq { be: [0x17, 0xf1, 0xd3, 0xa7, 0x31, 0x97, 0xd7, 0x94, 0x26, 0x95, 0x63, 0x8c, 0x4f, 0xa9, 0xac, 0x0f, 0xc3, 0x68, 0x8c, 0x4f, 0x97, 0x74, 0xb9, 0x05, 0xa1, 0x4e, 0x3a, 0x3f, 0x17, 0x1b, 0xac, 0x58, 0x6c, 0x55, 0xe8, 0x3f, 0xf9, 0x7a, 0x1a, 0xef, 0xfb, 0x3a, 0xf0, 0x0a, 0xdb, 0x22, 0xc6, 0xbb] };
    proof {
        assert(r.be@ =~= g1_gen_x_bytes());
        assert(r.be@.subrange(0, 0) =~= fq_modulus_bytes().subrange(0, 0));
        lemma_be_val_lex(r.be@, fq_modulus_bytes(), 0);
    }
    r
}

pub fn g1_gen_y() -> (r: Fq)
    ensures
        r.be@ == g1_gen_y_bytes(),
        r.wf(),
{
    let r = Fq { be: [0x08, 0xb3, 0xf4, 0x81, 0xe3, 0xaa, 0xa0, 0xf1, 0xa0, 0x9e, 0x30, 0xed, 0x74, 0x1d, 0x8a, 0xe4, 0xfc, 0xf5, 0xe0, 0x95, 0xd5, 0xd0, 0x0a, 0xf6, 0x00, 0xdb, 0x18, 0xcb, 0x2c, 0x04, 0xb3, 0xed, 0xd0, 0x3c, 0xc7, 0x44, 0xa2, 0x88, 0x8a, 0xe4, 0x0c, 0xaa, 0x23, 0x29, 0x46, 0xc5, 0xe7, 0xe1] };
    proof {
        assert(r.be@ =~= g1_gen_y_bytes());
        assert(r.be@.subrange(0, 0) =~= fq_modulus_bytes().subrange(0, 0));
        lemma_be_val_lex(r.be@, fq_modulus_bytes(), 0);
    }
    r
}

pub fn g2_gen_x0() -> (r: Fq)
    ensures
        r.be@ == g2_gen_x0_bytes(),
        r.wf(),
{
    let r = Fq { be: [0x02, 0x4a, 0xa2, 0xb2, 0xf0, 0x8f, 0x0a, 0x91, 0x26, 0x08, 0x05, 0x27, 0x2d, 0xc5, 0x10, 0x51, 0xc6, 0xe4, 0x7a, 0xd4, 0xfa, 0x40, 0x3b, 0x02, 0xb4, 0x51, 0x0b, 0x64, 0x7a, 0xe3, 0xd1, 0x77, 0x0b, 0xac, 0x03, 0x26, 0xa8, 0x05, 0xbb, 0xef, 0xd4, 0x80, 0x56, 0xc8, 0xc1, 0x21, 0xbd, 0xb8] };
    proof {
        assert(r.be@ =~= g2_gen_x0_bytes());
        assert(r.be@.subrange(0, 0) =~= fq_modulus_bytes().subrange(0, 0));
        lemma_be_val_lex(r.be@, fq_modulus_bytes(), 0);
    }
    r
}

pub fn g2_gen_x1() -> (r: Fq)
    ensures
        r.be@ == g2_gen_x1_bytes(),
        r.wf(),
{
    let r = Fq { be: [0x13, 0xe0, 0x2b, 0x60, 0x52, 0x71, 0x9f, 0x60, 0x7d, 0xac, 0xd3, 0xa0, 0x88, 0x27, 0x4f, 0x65, 0x59, 0x6b, 0xd0, 0xd0, 0x99, 0x20, 0xb6, 0x1a, 0xb5, 0xda, 0x61, 0xbb, 0xdc, 0x7f, 0x50, 0x49, 0x33, 0x4c, 0xf1, 0x12, 0x13, 0x94, 0x5d, 0x57, 0xe5, 0xac, 0x7d, 0x05, 0x5d, 0x04, 0x2b, 0x7e] };
    proof {
        assert(r.be@ =~= g2_gen_x1_bytes());
        assert(r.be@.subrange(0, 0) =~= fq_modulus_bytes().subrange(0, 0));
        lemma_be_val_lex(r.be@, fq_modulus_bytes(), 0);
    }
    r
}

pub fn g2_gen_y0() -> (r: Fq)
    ensures
        r.be@ == g2_gen_y0_bytes(),
        r.wf(),
{
    let r = Fq { be: [0x0c, 0xe5, 0xd5, 0x27, 0x72, 0x7d, 0x6e, 0x11, 0x8c, 0xc9, 0xcd, 0xc6, 0xda, 0x2e, 0x35, 0x1a, 0xad, 0xfd, 0x9b, 0xaa, 0x8c, 0xbd, 0xd3, 0xa7, 0x6d, 0x42, 0x9a, 0x69, 0x51, 0x60, 0xd1, 0x2c, 0x92, 0x3a, 0xc9, 0xcc, 0x3b, 0xac, 0xa2, 0x89, 0xe1, 0x93, 0x54, 0x86, 0x08, 0xb8, 0x28, 0x01] };
    proof {
        assert(r.be@ =~= g2_gen_y0_bytes());
        assert(r.be@.subrange(0, 0) =~= fq_modulus_bytes().subrange(0, 0));
        lemma_be_val_lex(r.be@, fq_modulus_bytes(), 0);
    }
    r
}

pub fn g2_gen_y1() -> (r: Fq)
    ensures
        r.be@ == g2_gen_y1_bytes(),
        r.wf(),
{
    let r = Fq { be: [0x06, 0x06, 0xc4, 0xa0, 0x2e, 0xa7, 0x34, 0xcc, 0x32, 0xac, 0xd2, 0xb0, 0x2b, 0xc2, 0x8b, 0x99, 0xcb, 0x3e, 0x28, 0x7e, 0x85, 0xa7, 0x63, 0xaf, 0x26, 0x74, 0x92, 0xab, 0x57, 0x2e, 0x99, 0xab, 0x3f, 0x37, 0x0d, 0x27, 0x5c, 0xec, 0x1d, 0xa1, 0xaa, 0xa9, 0x07, 0x5f, 0xf0, 0x5f, 0x79, 0xbe] };
    proof {
        assert(r.be@ =~= g2_gen_y1_bytes());
        assert(r.be@.subrange(0, 0) =~= fq_modulus_bytes().subrange(0, 0));
        lemma_be_val_lex(r.be@, fq_modulus_bytes(), 0);
    }
    r
}

pub fn beta() -> (r: Fq)
    ensures
        r.be@ == beta_bytes(),
        r.wf(),
{
    let r = Fq { be: [0x00, 0x00, 0x00, 0x00, 0x00, 0x00, 0x00, 0x00, 0x5f, 0x19, 0x67, 0x2f, 0xdf, 0x76, 0xce, 0x51, 0xba, 0x69, 0xc6, 0x07, 0x6a, 0x0f, 0x77, 0xea, 0xdd, 0xb3, 0xa9, 0x3b, 0xe6, 0xf8, 0x96, 0x88, 0xde, 0x17, 0xd8, 0x13, 0x62, 0x0a, 0x00, 0x02, 0x2e, 0x01, 0xff, 0xff, 0xff, 0xfe, 0xff, 0xfe] };
    proof {
        assert(r.be@ =~= beta_bytes());
        assert(r.be@.subrange(0, 0) =~= fq_modulus_bytes().subrange(0, 0));
        lemma_be_val_lex(r.be@, fq_modulus_bytes(), 0);
    }
    r
}

pub fn psi_x() -> (r: Fq)
    ensures
        r.be@ == psi_x_bytes(),
        r.wf(),
{
    let r = Fq { be: [0x1a, 0x01, 0x11, 0xea, 0x39, 0x7f, 0xe6, 0x99, 0xec, 0x02, 0x40, 0x86, 0x63, 0xd4, 0xde, 0x85, 0xaa, 0x0d, 0x85, 0x7d, 0x89, 0x75, 0x9a, 0xd4, 0x89, 0x7d, 0x29, 0x65, 0x0f, 0xb8, 0x5f, 0x9b, 0x40, 0x94, 0x27, 0xeb, 0x4f, 0x49, 0xff, 0xfd, 0x8b, 0xfd, 0x00, 0x00, 0x00, 0x00, 0xaa, 0xad] };
    proof {
        assert(r.be@ =~= psi_x_bytes());
        assert(r.be@.subrange(0, 7) =~= fq_modulus_bytes().subrange(0, 7));
        lemma_be_val_lex(r.be@, fq_modulus_bytes(), 7);
    }
    r
}

pub fn psi_y0() -> (r: Fq)
    ensures
        r.be@ == psi_y0_bytes(),
        r.wf(),
{
    let r = Fq { be: [0x13, 0x52, 0x03, 0xe6, 0x01, 0x80, 0xa6, 0x8e, 0xe2, 0xe9, 0xc4, 0x48, 0xd7, 0x7a, 0x2c, 0xd9, 0x1c, 0x3d, 0xed, 0xd9, 0x30, 0xb1, 0xcf, 0x60, 0xef, 0x39, 0x64, 0x89, 0xf6, 0x1e, 0xb4, 0x5e, 0x30, 0x44, 0x66, 0xcf, 0x3e, 0x67, 0xfa, 0x0a, 0xf1, 0xee, 0x7b, 0x04, 0x12, 0x1b, 0xde, 0xa2] };
    proof {
        assert(r.be@ =~= psi_y0_bytes());
        assert(r.be@.subrange(0, 0) =~= fq_modulus_bytes().subrange(0, 0));
        lemma_be_val_lex(r.be@, fq_modulus_bytes(), 0);
    }
    r
}

pub fn psi_y1() -> (r: Fq)
    ensures
        r.be@ == psi_y1_bytes(),
        r.wf(),
{
    let r = Fq { be: [0x06, 0xaf, 0x0e, 0x04, 0x37, 0xff, 0x40, 0x0b, 0x68, 0x31, 0xe3, 0x6d, 0x6b, 0xd1, 0x7f, 0xfe, 0x48, 0x39, 0x5d, 0xab, 0xc2, 0xd3, 0x43, 0x5e, 0x77, 0xf7, 0x6e, 0x17, 0x00, 0x92, 0x41, 0xc5, 0xee, 0x67, 0x99, 0x2f, 0x72, 0xec, 0x05, 0xf4, 0xc8, 0x10, 0x84, 0xfb, 0xed, 0xe3, 0xcc, 0x09] };
    proof {
        assert(r.be@ =~= psi_y1_bytes());
        assert(r.be@.subrange(0, 0) =~= fq_modulus_bytes().subrange(0, 0));
        lemma_be_val_lex(r.be@, fq_modulus_bytes(), 0);
    }
    r
}

/// BETA, a non-trivial cube root of unity in Fq.
pub open spec fn beta_val() -> nat {
    be_val(beta_bytes())
}

/// `1 / (u + 1)^((p - 1) / 3)`, the x coefficient of the G2 endomorphism.
pub open spec fn psi_x_val() -> nat {
    be_val(psi_x_bytes())
}

/// `1 / (u + 1)^((p - 1) / 2)`, the y coefficient of the G2 endomorphism.
pub open spec fn psi_y_val() -> (nat, nat) {
    (be_val(psi_y0_bytes()), be_val(psi_y1_bytes()))
}

} // verus!
