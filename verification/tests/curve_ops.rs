use bls12_381::{pairing, G1Affine, G1Projective, G2Affine, G2Projective, Scalar as Fr};
use ff::Field;
use group::Curve;
use phase2::audit::{merge_pairs, merge_pairs_with, same_ratio, sample_weights};
use phase2::curve::{pairings_agree, G1Point, G2Point, Scalar};
use phase2::mpc::batch_exp;
use rand::SeedableRng;
use rand_chacha::ChaChaRng;

const G1_GENERATOR: [u8; 96] = [
    0x17, 0xf1, 0xd3, 0xa7, 0x31, 0x97, 0xd7, 0x94, 0x26, 0x95, 0x63, 0x8c, 0x4f, 0xa9, 0xac, 0x0f,
    0xc3, 0x68, 0x8c, 0x4f, 0x97, 0x74, 0xb9, 0x05, 0xa1, 0x4e, 0x3a, 0x3f, 0x17, 0x1b, 0xac, 0x58,
    0x6c, 0x55, 0xe8, 0x3f, 0xf9, 0x7a, 0x1a, 0xef, 0xfb, 0x3a, 0xf0, 0x0a, 0xdb, 0x22, 0xc6, 0xbb,
    0x08, 0xb3, 0xf4, 0x81, 0xe3, 0xaa, 0xa0, 0xf1, 0xa0, 0x9e, 0x30, 0xed, 0x74, 0x1d, 0x8a, 0xe4,
    0xfc, 0xf5, 0xe0, 0x95, 0xd5, 0xd0, 0x0a, 0xf6, 0x00, 0xdb, 0x18, 0xcb, 0x2c, 0x04, 0xb3, 0xed,
    0xd0, 0x3c, 0xc7, 0x44, 0xa2, 0x88, 0x8a, 0xe4, 0x0c, 0xaa, 0x23, 0x29, 0x46, 0xc5, 0xe7, 0xe1,
];

const G2_GENERATOR: [u8; 192] = [
    0x13, 0xe0, 0x2b, 0x60, 0x52, 0x71, 0x9f, 0x60, 0x7d, 0xac, 0xd3, 0xa0, 0x88, 0x27, 0x4f, 0x65,
    0x59, 0x6b, 0xd0, 0xd0, 0x99, 0x20, 0xb6, 0x1a, 0xb5, 0xda, 0x61, 0xbb, 0xdc, 0x7f, 0x50, 0x49,
    0x33, 0x4c, 0xf1, 0x12, 0x13, 0x94, 0x5d, 0x57, 0xe5, 0xac, 0x7d, 0x05, 0x5d, 0x04, 0x2b, 0x7e,
    0x02, 0x4a, 0xa2, 0xb2, 0xf0, 0x8f, 0x0a, 0x91, 0x26, 0x08, 0x05, 0x27, 0x2d, 0xc5, 0x10, 0x51,
    0xc6, 0xe4, 0x7a, 0xd4, 0xfa, 0x40, 0x3b, 0x02, 0xb4, 0x51, 0x0b, 0x64, 0x7a, 0xe3, 0xd1, 0x77,
    0x0b, 0xac, 0x03, 0x26, 0xa8, 0x05, 0xbb, 0xef, 0xd4, 0x80, 0x56, 0xc8, 0xc1, 0x21, 0xbd, 0xb8,
    0x06, 0x06, 0xc4, 0xa0, 0x2e, 0xa7, 0x34, 0xcc, 0x32, 0xac, 0xd2, 0xb0, 0x2b, 0xc2, 0x8b, 0x99,
    0xcb, 0x3e, 0x28, 0x7e, 0x85, 0xa7, 0x63, 0xaf, 0x26, 0x74, 0x92, 0xab, 0x57, 0x2e, 0x99, 0xab,
    0x3f, 0x37, 0x0d, 0x27, 0x5c, 0xec, 0x1d, 0xa1, 0xaa, 0xa9, 0x07, 0x5f, 0xf0, 0x5f, 0x79, 0xbe,
    0x0c, 0xe5, 0xd5, 0x27, 0x72, 0x7d, 0x6e, 0x11, 0x8c, 0xc9, 0xcd, 0xc6, 0xda, 0x2e, 0x35, 0x1a,
    0xad, 0xfd, 0x9b, 0xaa, 0x8c, 0xbd, 0xd3, 0xa7, 0x6d, 0x42, 0x9a, 0x69, 0x51, 0x60, 0xd1, 0x2c,
    0x92, 0x3a, 0xc9, 0xcc, 0x3b, 0xac, 0xa2, 0x89, 0xe1, 0x93, 0x54, 0x86, 0x08, 0xb8, 0x28, 0x01,
];

fn scalar(k: u64) -> Scalar {
    Scalar::from_bytes(&Fr::from(k).to_bytes()).unwrap()
}

fn g1(k: u64) -> G1Point {
    let point = (G1Projective::generator() * Fr::from(k)).to_affine();
    G1Point::from_uncompressed(&point.to_uncompressed()).unwrap()
}

fn g2(k: u64) -> G2Point {
    let point = (G2Projective::generator() * Fr::from(k)).to_affine();
    G2Point::from_uncompressed(&point.to_uncompressed()).unwrap()
}

fn affine1(point: &G1Point) -> G1Affine {
    G1Affine::from_uncompressed(&point.to_uncompressed()).unwrap()
}

fn affine2(point: &G2Point) -> G2Affine {
    G2Affine::from_uncompressed(&point.to_uncompressed()).unwrap()
}

#[test]
fn the_generators_are_those_of_the_curve_library() {
    assert_eq!(G1Point::generator().to_uncompressed(), G1_GENERATOR);
    assert_eq!(G2Point::generator().to_uncompressed(), G2_GENERATOR);
    assert_eq!(G1Affine::generator().to_uncompressed(), G1_GENERATOR);
    assert_eq!(G2Affine::generator().to_uncompressed(), G2_GENERATOR);
    assert!(G1Point::generator().is_member());
    assert!(G2Point::generator().is_member());
    assert!(!G1Point::generator().is_identity());
    assert!(!G2Point::generator().is_identity());
}

#[test]
fn the_identity_is_the_flag_over_zeros() {
    let mut want1 = [0u8; 96];
    want1[0] = 0x40;
    let mut want2 = [0u8; 192];
    want2[0] = 0x40;
    assert_eq!(G1Point::identity().to_uncompressed(), want1);
    assert_eq!(G2Point::identity().to_uncompressed(), want2);
    assert!(G1Point::identity().is_identity());
    assert!(G2Point::identity().is_identity());
    assert!(bool::from(affine1(&G1Point::identity()).is_identity()));
    assert!(bool::from(affine2(&G2Point::identity()).is_identity()));
    assert!(!bool::from(affine1(&g1(5)).is_identity()));
}

#[test]
fn scalars_are_32_little_endian_bytes_below_the_modulus() {
    let mut one = [0u8; 32];
    one[0] = 1;
    assert_eq!(Scalar::one().to_bytes(), one);
    assert_eq!(scalar(0x0102).to_bytes()[0..2], [2, 1]);
    assert!(Scalar::from_bytes(&[0u8; 32]).unwrap().is_zero());
    assert!(!Scalar::one().is_zero());
    assert!(Scalar::from_bytes(&[0xff; 32]).is_none());
    // The modulus itself is one too many.
    let modulus_minus_one = (-Fr::ONE).to_bytes();
    assert!(Scalar::from_bytes(&modulus_minus_one).is_some());
    let mut modulus = modulus_minus_one;
    modulus[0] += 1;
    assert!(Scalar::from_bytes(&modulus).is_none());
    assert!(scalar(5).same(&scalar(5)));
    assert!(!scalar(5).same(&scalar(6)));
}

#[test]
fn invert_gives_the_inverse_and_none_for_zero() {
    assert!(scalar(0).invert().is_none());
    assert!(Scalar::one().invert().unwrap().same(&Scalar::one()));
    let inverse = scalar(7).invert().unwrap();
    assert_eq!(inverse.to_bytes(), Fr::from(7u64).invert().unwrap().to_bytes());
    assert!(!inverse.same(&scalar(7)));
    assert!(inverse.invert().unwrap().same(&scalar(7)));
}

#[test]
fn decoding_tells_well_formed_from_member() {
    let mut off_curve = [0u8; 96];
    off_curve[47] = 1;
    off_curve[95] = 1;
    assert!(G1Point::from_uncompressed_unchecked(&off_curve).is_some());
    assert!(G1Point::from_uncompressed(&off_curve).is_none());
    assert!(!G1Point::from_uncompressed_unchecked(&off_curve).unwrap().is_member());
    // A coordinate at or above the field modulus is not well formed.
    assert!(G1Point::from_uncompressed_unchecked(&[0x1f; 96]).is_none());
    // Neither is the compression flag or the sort flag.
    let mut flagged = G1_GENERATOR;
    flagged[0] |= 0x80;
    assert!(G1Point::from_uncompressed_unchecked(&flagged).is_none());
    let mut sorted = G1_GENERATOR;
    sorted[0] |= 0x20;
    assert!(G1Point::from_uncompressed_unchecked(&sorted).is_none());
    // The flag for the identity must stand over zeros.
    let mut infinite = G1_GENERATOR;
    infinite[0] |= 0x40;
    assert!(G1Point::from_uncompressed_unchecked(&infinite).is_none());
    assert!(G1Point::from_uncompressed(&G1_GENERATOR).is_some());
    let mut off_twist = [0u8; 192];
    off_twist[95] = 1;
    off_twist[191] = 1;
    assert!(G2Point::from_uncompressed_unchecked(&off_twist).is_some());
    assert!(G2Point::from_uncompressed(&off_twist).is_none());
    assert!(G2Point::from_uncompressed(&G2_GENERATOR).is_some());
    assert!(G2Point::from_uncompressed_unchecked(&[0x1f; 192]).is_none());
}

#[test]
fn scale_multiplies_in_both_groups() {
    let p = g1(3).scale(&scalar(5));
    assert!(p.same(&g1(15)));
    assert!(!p.same(&g1(3)));
    let windowed = g1(3).scale_windowed(&scalar(5));
    assert!(windowed.same(&g1(15)));
    let q = g2(4).scale(&scalar(6));
    assert!(q.same(&g2(24)));
    assert!(!q.same(&g2(4)));
    assert!(g1(9).scale(&scalar(0)).is_identity());
    assert!(g1(9).scale_windowed(&scalar(0)).is_identity());
    assert!(g1(9).scale(&Scalar::one()).same(&g1(9)));
}

#[test]
fn plus_adds_in_both_groups() {
    assert!(g1(3).plus(&g1(4)).same(&g1(7)));
    assert!(!g1(3).plus(&g1(4)).same(&g1(3)));
    assert!(g2(3).plus(&g2(4)).same(&g2(7)));
    assert!(!g2(3).plus(&g2(4)).same(&g2(4)));
    assert!(G1Point::identity().plus(&g1(4)).same(&g1(4)));
    assert!(G2Point::identity().plus(&g2(4)).same(&g2(4)));
    assert!(g1(4).plus(&g1(4)).same(&g1(8)));
}

#[test]
fn random_elements_are_members_and_follow_the_stream() {
    let mut rng = ChaChaRng::from_seed([42u8; 32]);
    let a = G1Point::random(&mut rng);
    let b = G1Point::random(&mut rng);
    assert!(a.is_member());
    assert!(!a.is_identity());
    assert!(!a.same(&b));
    let mut again = ChaChaRng::from_seed([42u8; 32]);
    assert!(G1Point::random(&mut again).same(&a));
    let mut rng = ChaChaRng::from_seed([43u8; 32]);
    let x = Scalar::random(&mut rng);
    let y = Scalar::random(&mut rng);
    assert!(!x.same(&y));
    let mut again = ChaChaRng::from_seed([43u8; 32]);
    assert!(Scalar::random(&mut again).same(&x));
    let mut theirs = ChaChaRng::from_seed([43u8; 32]);
    assert_eq!(x.to_bytes(), Fr::random(&mut theirs).to_bytes());
    assert!(!Scalar::random_local().same(&Scalar::random_local()));
}

#[test]
fn pairings_agree_compares_the_pairing_of_two_pairs() {
    // e(2 G1, 3 G2) = e(6 G1, G2) = e(3 G1, 2 G2)
    assert!(pairings_agree(&g1(2), &g2(3), &g1(6), &g2(1)));
    assert!(pairings_agree(&g1(2), &g2(3), &g1(3), &g2(2)));
    assert!(!pairings_agree(&g1(2), &g2(3), &g1(5), &g2(1)));
    assert!(!pairings_agree(&g1(2), &g2(3), &g1(2), &g2(4)));
    assert_eq!(
        pairing(&affine1(&g1(2)), &affine2(&g2(3))),
        pairing(&affine1(&g1(6)), &affine2(&g2(1)))
    );
}

#[test]
fn same_ratio_holds_exactly_for_equal_multiples() {
    assert!(same_ratio((g1(2), g1(10)), (g2(3), g2(15))));
    assert!(same_ratio((g1(1), g1(7)), (g2(1), g2(7))));
    assert!(!same_ratio((g1(2), g1(10)), (g2(3), g2(14))));
    assert!(!same_ratio((g1(2), g1(11)), (g2(3), g2(15))));
}

#[test]
fn merge_pairs_with_sums_the_weighted_elements() {
    let v1 = vec![g1(1), g1(2), g1(3)];
    let v2 = vec![g1(10), g1(20), g1(30)];
    let weights = vec![scalar(5), scalar(7), scalar(11)];
    let (s, sx) = merge_pairs_with(&v1, &v2, &weights);
    // 5 + 14 + 33 = 52
    assert!(s.same(&g1(52)));
    assert!(sx.same(&g1(520)));
    let (none, none_x) = merge_pairs_with(&vec![], &vec![], &vec![]);
    assert!(none.is_identity());
    assert!(none_x.is_identity());
}

#[test]
fn merge_pairs_keeps_a_common_ratio() {
    let v1 = vec![g1(1), g1(2), g1(3), g1(4)];
    let v2 = vec![g1(3), g1(6), g1(9), g1(12)];
    let (s, sx) = merge_pairs(&v1, &v2);
    assert!(same_ratio((s, sx), (g2(1), g2(3))));
    let v3 = vec![g1(3), g1(6), g1(9), g1(13)];
    let (t, tx) = merge_pairs(&v1, &v3);
    assert!(!same_ratio((t, tx), (g2(1), g2(3))));
    assert_eq!(sample_weights(5).len(), 5);
    assert_eq!(sample_weights(0).len(), 0);
}

#[test]
fn batch_exp_multiplies_every_element() {
    let mut bases = vec![g1(1), g1(2), g1(3)];
    batch_exp(&mut bases, &scalar(4));
    assert!(bases[0].same(&g1(4)));
    assert!(bases[1].same(&g1(8)));
    assert!(bases[2].same(&g1(12)));
    let mut none: Vec<G1Point> = vec![];
    batch_exp(&mut none, &scalar(4));
    assert!(none.is_empty());
}

#[test]
fn pairings_of_elements_outside_the_subgroups_never_agree() {
    let mut off_curve = [0u8; 96];
    off_curve[47] = 1;
    off_curve[95] = 1;
    let stray1 = G1Point::from_uncompressed_unchecked(&off_curve).unwrap();
    // All zeros is well formed as an element of G2, and on no curve.
    let stray2 = G2Point::from_uncompressed_unchecked(&[0u8; 192]).unwrap();
    assert!(!stray1.is_member());
    assert!(!stray2.is_member());
    assert!(!pairings_agree(&g1(2), &stray2, &g1(2), &stray2));
    assert!(!pairings_agree(&stray1, &g2(3), &stray1, &g2(3)));
    assert!(!pairings_agree(&g1(2), &g2(3), &stray1, &g2(3)));
    assert!(!pairings_agree(&g1(2), &g2(3), &g1(2), &stray2));
    assert!(!same_ratio((g1(2), g1(2)), (stray2, stray2)));
    assert!(!same_ratio((stray1, stray1), (g2(1), g2(1))));
    assert!(pairings_agree(&g1(2), &g2(3), &g1(2), &g2(3)));
    // The identity is in both subgroups.
    assert!(pairings_agree(&G1Point::identity(), &g2(3), &g1(5), &G2Point::identity()));
    assert!(!pairings_agree(&G1Point::identity(), &g2(3), &g1(5), &g2(3)));
}
