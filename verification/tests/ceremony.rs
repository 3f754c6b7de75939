use bls12_381::{G1Affine, G1Projective, G2Projective, Scalar as Fr};
use ff::{Field, PrimeField};
use group::{Curve, Group};
use phase2::assembly::KeypairAssembly;
use phase2::audit::{
    contains_contribution, verify_chain_with, verify_contribution, verify_contribution_with,
};
use phase2::curve::{pairings_agree, G1Point, G2Point, Scalar};
use phase2::keys::hash_to_g2;
use phase2::mpc::{phase1_exponent, MPCParameters};
use phase2::setup::SetupError;
use phase2::wire::ReadError;
use rand::SeedableRng;
use rand_chacha::ChaChaRng;

fn scalar(value: Fr) -> Scalar {
    Scalar::from_bytes(&value.to_bytes()).unwrap()
}

fn push_g1(out: &mut Vec<u8>, point: G1Projective) {
    out.extend_from_slice(&point.to_affine().to_uncompressed());
}

fn push_g2(out: &mut Vec<u8>, point: G2Projective) {
    out.extend_from_slice(&point.to_affine().to_uncompressed());
}

/// A powers-of-tau transcript for a domain of size two to the `exp`, made
/// from secrets that are known here.
fn transcript(exp: u32) -> Vec<u8> {
    let m: u64 = 1 << exp;
    let tau = Fr::from(0x1234_5678_9abc_def1u64);
    let alpha = Fr::from(0x0bad_cafe_dead_beefu64);
    let beta = Fr::from(0x0123_4567_89ab_cdefu64);
    let omega = Fr::ROOT_OF_UNITY.pow_vartime(&[1u64 << (Fr::S - exp), 0, 0, 0]);
    let z = tau.pow_vartime(&[m, 0, 0, 0]) - Fr::ONE;
    let g1 = G1Projective::generator();
    let g2 = G2Projective::generator();
    let mut lagrange = vec![];
    let mut point = Fr::ONE;
    for _ in 0..m {
        let denominator = (Fr::from(m) * (tau - point)).invert().unwrap();
        lagrange.push(z * point * denominator);
        point *= omega;
    }
    let mut out = vec![];
    push_g1(&mut out, g1 * alpha);
    push_g1(&mut out, g1 * beta);
    push_g2(&mut out, g2 * beta);
    for l in &lagrange {
        push_g1(&mut out, g1 * l);
    }
    for l in &lagrange {
        push_g2(&mut out, g2 * l);
    }
    for l in &lagrange {
        push_g1(&mut out, g1 * (alpha * l));
    }
    for l in &lagrange {
        push_g1(&mut out, g1 * (beta * l));
    }
    let mut power = Fr::ONE;
    for _ in 0..(m - 1) {
        push_g1(&mut out, g1 * (power * z));
        power *= tau;
    }
    out
}

/// The constraint system of the circuit that proves knowledge of a cube
/// root: `root * root = square` and `root * square = cube`.
fn cube_root() -> KeypairAssembly {
    let one = Scalar::one();
    let mut cs = KeypairAssembly::new();
    let root = cs.alloc_aux();
    let square = cs.alloc_aux();
    cs.enforce(&vec![(root, one)], &vec![(root, one)], &vec![(square, one)]);
    let cube = cs.alloc_input();
    cs.enforce(&vec![(root, one)], &vec![(square, one)], &vec![(cube, one)]);
    cs
}

fn initial() -> MPCParameters {
    MPCParameters::new(cube_root(), &transcript(2)).unwrap()
}

#[test]
fn cube_root_needs_a_domain_of_four() {
    let cs = cube_root();
    assert_eq!(cs.num_inputs(), 2);
    assert_eq!(cs.num_aux(), 2);
    assert_eq!(cs.num_constraints(), 2);
    assert_eq!(phase1_exponent(&cs), Ok(2));
}

#[test]
fn new_gives_the_same_state_every_time() {
    let a = initial();
    let b = initial();
    assert!(a == b);
    assert_eq!(a.cs_hash().to_vec(), b.cs_hash().to_vec());
    assert_eq!(a.contributions().len(), 0);
    let params = a.get_params();
    assert_eq!(params.h.len(), 3);
    assert_eq!(params.l.len(), 2);
    assert_eq!(params.vk.ic.len(), 2);
    assert!(params.vk.delta_g1.same(&G1Point::generator()));
    assert!(params.vk.delta_g2.same(&G2Point::generator()));
    assert!(params.vk.gamma_g2.same(&G2Point::generator()));
}

#[test]
fn new_filters_the_identity_out_of_a_and_b() {
    let state = initial();
    let params = state.get_params();
    // Of the four variables, `one` and `cube` are in A by their sentinel
    // constraints only, `root` by both constraints; `square` is not in A.
    assert_eq!(params.a.len(), 3);
    // Only `root` and `square` occur in B.
    assert_eq!(params.b_g1.len(), 2);
    assert_eq!(params.b_g2.len(), 2);
    for point in params.a.iter().chain(params.b_g1.iter()) {
        assert!(!point.is_identity());
    }
}

#[test]
fn verify_of_the_initial_state_returns_no_receipt() {
    let state = initial();
    let receipts = state.verify(cube_root(), &transcript(2)).unwrap();
    assert_eq!(receipts.len(), 0);
}

#[test]
fn one_contribution_is_verified_and_found() {
    let mut state = initial();
    let before = state.clone();
    let mut rng = ChaChaRng::from_seed([0u8; 32]);
    let receipt = state.contribute(&mut rng).unwrap();
    assert_eq!(state.contributions().len(), 1);
    assert_eq!(verify_contribution(&before, &state), Ok(receipt));
    let receipts = state.verify(cube_root(), &transcript(2)).unwrap();
    assert_eq!(receipts.len(), 1);
    assert_eq!(receipts[0].to_vec(), receipt.to_vec());
    assert!(contains_contribution(&receipts, &receipt));
}

#[test]
fn the_same_seed_gives_the_same_contribution() {
    let mut a = initial();
    let mut b = initial();
    let receipt_a = a.contribute(&mut ChaChaRng::from_seed([0u8; 32])).unwrap();
    let receipt_b = b.contribute(&mut ChaChaRng::from_seed([0u8; 32])).unwrap();
    assert_eq!(receipt_a.to_vec(), receipt_b.to_vec());
    assert!(a == b);
    let mut c = initial();
    let receipt_c = c.contribute(&mut ChaChaRng::from_seed([1u8; 32])).unwrap();
    assert_ne!(receipt_a.to_vec(), receipt_c.to_vec());
    assert!(a != c);
}

#[test]
fn two_contributions_are_returned_in_order() {
    let mut state = initial();
    let first = state.contribute(&mut ChaChaRng::from_seed([1u8; 32])).unwrap();
    let middle = state.clone();
    let second = state.contribute(&mut ChaChaRng::from_seed([2u8; 32])).unwrap();
    assert_eq!(verify_contribution(&middle, &state), Ok(second));
    let receipts = state.verify(cube_root(), &transcript(2)).unwrap();
    assert_eq!(receipts.len(), 2);
    assert_eq!(receipts[0].to_vec(), first.to_vec());
    assert_eq!(receipts[1].to_vec(), second.to_vec());
    assert!(contains_contribution(&receipts, &first));
    assert!(contains_contribution(&receipts, &second));
    assert!(!contains_contribution(&receipts, &[0u8; 64]));
}

#[test]
fn contributions_leave_the_frozen_fields_alone() {
    let start = initial();
    let mut state = start.clone();
    state.contribute(&mut ChaChaRng::from_seed([3u8; 32])).unwrap();
    state.contribute(&mut ChaChaRng::from_seed([4u8; 32])).unwrap();
    let before = start.get_params();
    let after = state.get_params();
    assert!(before.vk.alpha_g1.same(&after.vk.alpha_g1));
    assert!(before.vk.beta_g1.same(&after.vk.beta_g1));
    assert!(before.vk.beta_g2.same(&after.vk.beta_g2));
    assert!(before.vk.gamma_g2.same(&after.vk.gamma_g2));
    assert_eq!(before.vk.ic.len(), after.vk.ic.len());
    for (x, y) in before.vk.ic.iter().zip(after.vk.ic.iter()) {
        assert!(x.same(y));
    }
    for (x, y) in before.a.iter().zip(after.a.iter()) {
        assert!(x.same(y));
    }
    for (x, y) in before.b_g1.iter().zip(after.b_g1.iter()) {
        assert!(x.same(y));
    }
    for (x, y) in before.b_g2.iter().zip(after.b_g2.iter()) {
        assert!(x.same(y));
    }
    assert_eq!(start.cs_hash().to_vec(), state.cs_hash().to_vec());
    assert_eq!(before.h.len(), after.h.len());
    assert_eq!(before.l.len(), after.l.len());
    assert!(!before.vk.delta_g1.same(&after.vk.delta_g1));
    assert!(!before.h[0].same(&after.h[0]));
    assert!(!before.l[0].same(&after.l[0]));
}

#[test]
fn contribute_with_multiplies_the_deltas_and_divides_h_and_l() {
    let mut state = initial();
    let before = state.clone();
    let delta = Fr::from(7u64);
    let s = G1Projective::generator() * Fr::from(11u64);
    let s_point = G1Point::from_uncompressed(&s.to_affine().to_uncompressed()).unwrap();
    let receipt = state.contribute_with(scalar(delta), s_point).unwrap();
    let params = state.get_params();
    let want_g1 = (G1Projective::generator() * delta).to_affine().to_uncompressed();
    let want_g2 = (G2Projective::generator() * delta).to_affine().to_uncompressed();
    assert_eq!(params.vk.delta_g1.to_uncompressed().to_vec(), want_g1.to_vec());
    assert_eq!(params.vk.delta_g2.to_uncompressed().to_vec(), want_g2.to_vec());
    let inverse = delta.invert().unwrap();
    for (old, new) in before.get_params().h.iter().zip(params.h.iter()) {
        let point = G1Affine::from_uncompressed(&old.to_uncompressed()).unwrap();
        let want = (point * inverse).to_affine().to_uncompressed();
        assert_eq!(new.to_uncompressed().to_vec(), want.to_vec());
    }
    for (old, new) in before.get_params().l.iter().zip(params.l.iter()) {
        let point = G1Affine::from_uncompressed(&old.to_uncompressed()).unwrap();
        let want = (point * inverse).to_affine().to_uncompressed();
        assert_eq!(new.to_uncompressed().to_vec(), want.to_vec());
    }
    let key = state.contributions()[0];
    assert_eq!(key.delta_after.to_uncompressed().to_vec(), want_g1.to_vec());
    assert_eq!(
        key.s_delta.to_uncompressed().to_vec(),
        (s * delta).to_affine().to_uncompressed().to_vec()
    );
    assert_eq!(key.hash().to_vec(), receipt.to_vec());
    assert_eq!(verify_contribution(&before, &state), Ok(receipt));
}

#[test]
fn a_tampered_public_key_fails_both_checks() {
    let mut state = initial();
    let before = state.clone();
    state.contribute(&mut ChaChaRng::from_seed([5u8; 32])).unwrap();
    // Put another element of the group in the place of s_delta.
    let mut keys = state.contributions().clone();
    keys[0].s_delta = G1Point::generator();
    let tampered =
        MPCParameters::from_parts(state.get_params().clone(), state.cs_hash(), keys).unwrap();
    assert_eq!(verify_contribution(&before, &tampered), Err(()));
    assert_eq!(tampered.verify(cube_root(), &transcript(2)), Err(()));
    assert!(state.verify(cube_root(), &transcript(2)).is_ok());
}

#[test]
fn a_foreign_delta_in_g2_fails_both_checks() {
    let mut state = initial();
    let before = state.clone();
    state.contribute(&mut ChaChaRng::from_seed([6u8; 32])).unwrap();
    let mut params = state.get_params().clone();
    let other = (G2Projective::generator() * Fr::from(99u64)).to_affine();
    params.vk.delta_g2 = G2Point::from_uncompressed(&other.to_uncompressed()).unwrap();
    let tampered =
        MPCParameters::from_parts(params, state.cs_hash(), state.contributions().clone()).unwrap();
    assert_eq!(verify_contribution(&before, &tampered), Err(()));
    assert_eq!(tampered.verify(cube_root(), &transcript(2)), Err(()));
}

#[test]
fn a_changed_element_of_h_fails_the_batched_check() {
    let mut state = initial();
    let before = state.clone();
    state.contribute(&mut ChaChaRng::from_seed([7u8; 32])).unwrap();
    let mut params = state.get_params().clone();
    params.h[1] = G1Point::generator();
    let tampered =
        MPCParameters::from_parts(params, state.cs_hash(), state.contributions().clone()).unwrap();
    assert_eq!(verify_contribution(&before, &tampered), Err(()));
    assert_eq!(tampered.verify(cube_root(), &transcript(2)), Err(()));
    // With all weights zero the batched check cannot see the change.
    let zero = scalar(Fr::ZERO);
    let blind_h = vec![zero; 3];
    let blind_l = vec![zero; 2];
    assert!(verify_contribution_with(&before, &tampered, &blind_h, &blind_l).is_ok());
    let one = scalar(Fr::ONE);
    let sharp_h = vec![one; 3];
    assert!(verify_contribution_with(&before, &tampered, &sharp_h, &blind_l).is_err());
}

#[test]
fn a_contribution_cannot_be_checked_against_itself_or_out_of_order() {
    let start = initial();
    let mut one = start.clone();
    one.contribute(&mut ChaChaRng::from_seed([8u8; 32])).unwrap();
    let mut two = one.clone();
    two.contribute(&mut ChaChaRng::from_seed([9u8; 32])).unwrap();
    assert_eq!(verify_contribution(&one, &one), Err(()));
    assert_eq!(verify_contribution(&two, &one), Err(()));
    assert_eq!(verify_contribution(&start, &two), Err(()));
    assert!(verify_contribution(&one, &two).is_ok());
}

#[test]
fn verify_fails_for_another_circuit() {
    let mut state = initial();
    state.contribute(&mut ChaChaRng::from_seed([10u8; 32])).unwrap();
    let one = Scalar::one();
    let mut other = KeypairAssembly::new();
    let x = other.alloc_aux();
    let y = other.alloc_input();
    other.enforce(&vec![(x, one)], &vec![(x, one)], &vec![(y, one)]);
    assert_eq!(state.verify(other, &transcript(2)), Err(()));
}

#[test]
fn an_unconstrained_auxiliary_variable_is_rejected() {
    let one = Scalar::one();
    let mut cs = KeypairAssembly::new();
    let x = cs.alloc_aux();
    let _unused = cs.alloc_aux();
    let y = cs.alloc_input();
    cs.enforce(&vec![(x, one)], &vec![(x, one)], &vec![(y, one)]);
    assert_eq!(phase1_exponent(&cs), Ok(2));
    let result = MPCParameters::new(cs, &transcript(2));
    assert_eq!(result.err(), Some(SetupError::UnconstrainedVariable));
}

#[test]
fn a_short_transcript_is_rejected() {
    let mut bytes = transcript(2);
    bytes.pop();
    let result = MPCParameters::new(cube_root(), &bytes);
    assert_eq!(result.err(), Some(SetupError::Transcript(ReadError::UnexpectedEof)));
    let result = MPCParameters::new(cube_root(), &[]);
    assert_eq!(result.err(), Some(SetupError::Transcript(ReadError::UnexpectedEof)));
}

#[test]
fn a_transcript_with_the_identity_is_rejected() {
    let mut bytes = transcript(2);
    let identity = G1Affine::identity().to_uncompressed();
    bytes[384..480].copy_from_slice(&identity);
    let result = MPCParameters::new(cube_root(), &bytes);
    assert_eq!(result.err(), Some(SetupError::Transcript(ReadError::PointAtInfinity)));
}

#[test]
fn a_transcript_with_a_malformed_element_is_rejected() {
    let mut bytes = transcript(2);
    // The compression flag may not be set in an uncompressed element.
    bytes[96] |= 0x80;
    let result = MPCParameters::new(cube_root(), &bytes);
    assert_eq!(result.err(), Some(SetupError::Transcript(ReadError::InvalidPoint)));
}

#[test]
fn a_longer_transcript_is_read_from_its_start() {
    let mut bytes = transcript(2);
    bytes.extend_from_slice(&[0xffu8; 10]);
    let state = MPCParameters::new(cube_root(), &bytes).unwrap();
    assert!(state == initial());
}

#[test]
fn the_elements_of_the_transcript_are_used_as_they_stand() {
    let state = initial();
    let bytes = transcript(2);
    let params = state.get_params();
    assert_eq!(params.vk.alpha_g1.to_uncompressed().to_vec(), bytes[0..96].to_vec());
    assert_eq!(params.vk.beta_g1.to_uncompressed().to_vec(), bytes[96..192].to_vec());
    assert_eq!(params.vk.beta_g2.to_uncompressed().to_vec(), bytes[192..384].to_vec());
    let h_start = 384 + 480 * 4;
    for i in 0..3 {
        let at = h_start + 96 * i;
        assert_eq!(params.h[i].to_uncompressed().to_vec(), bytes[at..at + 96].to_vec());
    }
}

#[test]
fn a_contribution_to_a_state_with_foreign_deltas_does_not_verify() {
    let start = initial();
    let mut params = start.get_params().clone();
    let other = (G2Projective::generator() * Fr::from(5u64)).to_affine();
    params.vk.delta_g2 = G2Point::from_uncompressed(&other.to_uncompressed()).unwrap();
    let before = MPCParameters::from_parts(params, start.cs_hash(), vec![]).unwrap();
    let mut after = before.clone();
    let receipt = after.contribute(&mut ChaChaRng::from_seed([13u8; 32])).unwrap();
    assert_eq!(after.contributions()[0].hash().to_vec(), receipt.to_vec());
    // The step itself is sound, but the deltas of the state it started from
    // were not the same multiple of the generators, and still are not.
    assert_eq!(verify_contribution(&before, &after), Err(()));
}

#[test]
fn contribute_with_the_same_secrets_is_what_contribute_does() {
    let mut by_rng = initial();
    let mut by_hand = initial();
    let receipt = by_rng.contribute(&mut ChaChaRng::from_seed([14u8; 32])).unwrap();
    let mut rng = ChaChaRng::from_seed([14u8; 32]);
    let delta = Fr::random(&mut rng);
    let s = G1Projective::random(&mut rng).to_affine();
    let s = G1Point::from_uncompressed(&s.to_uncompressed()).unwrap();
    let same = by_hand.contribute_with(scalar(delta), s).unwrap();
    assert_eq!(receipt.to_vec(), same.to_vec());
    assert!(by_rng == by_hand);
}

#[test]
fn from_parts_keeps_what_it_is_given() {
    let state = initial();
    let copy = MPCParameters::from_parts(
        state.get_params().clone(),
        state.cs_hash(),
        state.contributions().clone(),
    )
    .unwrap();
    assert!(copy == state);
}

#[test]
fn every_key_of_a_valid_chain_proves_knowledge_of_its_secret() {
    let mut state = initial();
    state.contribute(&mut ChaChaRng::from_seed([15u8; 32])).unwrap();
    state.contribute(&mut ChaChaRng::from_seed([16u8; 32])).unwrap();
    state.contribute(&mut ChaChaRng::from_seed([17u8; 32])).unwrap();
    assert_eq!(state.verify(cube_root(), &transcript(2)).unwrap().len(), 3);
    let mut delta_before = G1Point::generator();
    for key in state.contributions() {
        let r = hash_to_g2(&key.transcript);
        // e(s, r_delta) = e(s_delta, r)
        assert!(pairings_agree(&key.s, &key.r_delta, &key.s_delta, &r));
        // e(delta_before, r_delta) = e(delta_after, r)
        assert!(pairings_agree(&delta_before, &key.r_delta, &key.delta_after, &r));
        assert!(!pairings_agree(&key.s, &key.r_delta, &key.s, &r));
        delta_before = key.delta_after;
    }
    assert!(delta_before.same(&state.get_params().vk.delta_g1));
}

#[test]
fn the_deltas_of_a_valid_state_agree_in_both_groups() {
    let mut state = initial();
    let vk = &state.get_params().vk;
    assert!(pairings_agree(&G1Point::generator(), &vk.delta_g2, &vk.delta_g1, &G2Point::generator()));
    state.contribute(&mut ChaChaRng::from_seed([18u8; 32])).unwrap();
    state.contribute(&mut ChaChaRng::from_seed([19u8; 32])).unwrap();
    let vk = &state.get_params().vk;
    assert!(!vk.delta_g1.same(&G1Point::generator()));
    assert!(pairings_agree(&G1Point::generator(), &vk.delta_g2, &vk.delta_g1, &G2Point::generator()));
}

#[test]
fn a_zero_secret_contributes_nothing() {
    let mut state = initial();
    let before = state.clone();
    assert_eq!(state.contribute_with(scalar(Fr::ZERO), G1Point::generator()), None);
    assert!(state == before);
    assert!(state.contribute_with(scalar(Fr::ONE), G1Point::generator()).is_some());
    assert_eq!(state.contributions().len(), 1);
    // The secret one leaves the parameters as they are, but is recorded.
    assert!(state.get_params() == before.get_params());
    assert!(state != before);
}

#[test]
fn the_checks_want_one_weight_for_each_element() {
    let start = initial();
    let mut state = start.clone();
    let receipt = state.contribute(&mut ChaChaRng::from_seed([20u8; 32])).unwrap();
    let one = scalar(Fr::ONE);
    let h = vec![one; 3];
    let l = vec![one; 2];
    assert_eq!(verify_contribution_with(&start, &state, &h, &l), Ok(receipt));
    assert_eq!(verify_chain_with(&state, &start, &h, &l), Ok(vec![receipt]));
    let short = vec![one; 2];
    let long = vec![one; 3];
    assert_eq!(verify_contribution_with(&start, &state, &short, &l), Err(()));
    assert_eq!(verify_contribution_with(&start, &state, &h, &long), Err(()));
    assert_eq!(verify_chain_with(&state, &start, &short, &l), Err(()));
    assert_eq!(verify_chain_with(&state, &start, &h, &long), Err(()));
}

#[test]
fn a_state_with_an_element_off_its_curve_fails_the_checks() {
    let mut state = initial();
    let before = state.clone();
    state.contribute(&mut ChaChaRng::from_seed([21u8; 32])).unwrap();
    // All zeros is well formed as an element of G2, and on no curve.
    let stray = G2Point::from_uncompressed_unchecked(&[0u8; 192]).unwrap();
    let mut params = state.get_params().clone();
    params.vk.delta_g2 = stray;
    let tampered =
        MPCParameters::from_parts(params, state.cs_hash(), state.contributions().clone()).unwrap();
    assert_eq!(verify_contribution(&before, &tampered), Err(()));
    assert_eq!(tampered.verify(cube_root(), &transcript(2)), Err(()));
    let mut keys = state.contributions().clone();
    keys[0].r_delta = stray;
    let tampered =
        MPCParameters::from_parts(state.get_params().clone(), state.cs_hash(), keys).unwrap();
    assert_eq!(verify_contribution(&before, &tampered), Err(()));
    assert_eq!(tampered.verify(cube_root(), &transcript(2)), Err(()));
    let mut off_curve = [0u8; 96];
    off_curve[47] = 1;
    off_curve[95] = 1;
    let mut params = state.get_params().clone();
    params.h[0] = G1Point::from_uncompressed_unchecked(&off_curve).unwrap();
    let tampered =
        MPCParameters::from_parts(params, state.cs_hash(), state.contributions().clone()).unwrap();
    assert_eq!(verify_contribution(&before, &tampered), Err(()));
    assert_eq!(tampered.verify(cube_root(), &transcript(2)), Err(()));
}
