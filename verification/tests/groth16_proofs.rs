use bellman::groth16::{create_random_proof, prepare_verifying_key, verify_proof, Parameters};
use bellman::{Circuit, ConstraintSystem, SynthesisError};
use bls12_381::{Bls12, G1Projective, G2Projective, Scalar as Fr};
use ff::{Field, PrimeField};
use group::Curve;
use phase2::assembly::KeypairAssembly;
use phase2::curve::Scalar;
use phase2::mpc::MPCParameters;
use rand::SeedableRng;
use rand_chacha::ChaChaRng;

/// Proves knowledge of the cube root of a public field element.
struct CubeRoot {
    cube_root: Option<Fr>,
}

impl Circuit<Fr> for CubeRoot {
    fn synthesize<CS: ConstraintSystem<Fr>>(self, cs: &mut CS) -> Result<(), SynthesisError> {
        let root = cs.alloc(|| "root", || self.cube_root.ok_or(SynthesisError::AssignmentMissing))?;
        let square = cs.alloc(
            || "square",
            || self.cube_root.ok_or(SynthesisError::AssignmentMissing).map(|root| root.square()),
        )?;
        cs.enforce(|| "squaring", |lc| lc + root, |lc| lc + root, |lc| lc + square);
        let cube = cs.alloc_input(
            || "cube",
            || {
                self.cube_root
                    .ok_or(SynthesisError::AssignmentMissing)
                    .map(|root| root.square() * root)
            },
        )?;
        cs.enforce(|| "cubing", |lc| lc + root, |lc| lc + square, |lc| lc + cube);
        Ok(())
    }
}

/// The constraint system that the circuit leaves behind, allocation by
/// allocation and constraint by constraint.
fn synthesized() -> KeypairAssembly {
    let one = Scalar::one();
    let mut cs = KeypairAssembly::new();
    let root = cs.alloc_aux();
    let square = cs.alloc_aux();
    cs.enforce(&vec![(root, one)], &vec![(root, one)], &vec![(square, one)]);
    let cube = cs.alloc_input();
    cs.enforce(&vec![(root, one)], &vec![(square, one)], &vec![(cube, one)]);
    cs
}

fn push_g1(out: &mut Vec<u8>, point: G1Projective) {
    out.extend_from_slice(&point.to_affine().to_uncompressed());
}

fn push_g2(out: &mut Vec<u8>, point: G2Projective) {
    out.extend_from_slice(&point.to_affine().to_uncompressed());
}

/// A powers-of-tau transcript for a domain of size two to the `exp`, made
/// from secrets that are known here.
fn transcript(exp: u32) -> Vec<u8> {
    let m: u64 = 1 << exp;
    let tau = Fr::from(0x1234_5678_9abc_def1u64);
    let alpha = Fr::from(0x0bad_cafe_dead_beefu64);
    let beta = Fr::from(0x0123_4567_89ab_cdefu64);
    let omega = Fr::ROOT_OF_UNITY.pow_vartime(&[1u64 << (Fr::S - exp), 0, 0, 0]);
    let z = tau.pow_vartime(&[m, 0, 0, 0]) - Fr::ONE;
    let g1 = G1Projective::generator();
    let g2 = G2Projective::generator();
    let mut lagrange = vec![];
    let mut point = Fr::ONE;
    for _ in 0..m {
        let denominator = (Fr::from(m) * (tau - point)).invert().unwrap();
        lagrange.push(z * point * denominator);
        point *= omega;
    }
    let mut out = vec![];
    push_g1(&mut out, g1 * alpha);
    push_g1(&mut out, g1 * beta);
    push_g2(&mut out, g2 * beta);
    for l in &lagrange {
        push_g1(&mut out, g1 * l);
    }
    for l in &lagrange {
        push_g2(&mut out, g2 * l);
    }
    for l in &lagrange {
        push_g1(&mut out, g1 * (alpha * l));
    }
    for l in &lagrange {
        push_g1(&mut out, g1 * (beta * l));
    }
    let mut power = Fr::ONE;
    for _ in 0..(m - 1) {
        push_g1(&mut out, g1 * (power * z));
        power *= tau;
    }
    out
}

fn bellman_parameters(state: &MPCParameters) -> Parameters<Bls12> {
    let mut bytes = vec![];
    state.write(&mut bytes);
    Parameters::read(&bytes[..], true).unwrap()
}

fn prove_and_verify(params: &Parameters<Bls12>, seed: u8) -> bool {
    let mut rng = ChaChaRng::from_seed([seed; 32]);
    let root = Fr::from(1000u64 + seed as u64);
    let cube = root.square() * root;
    let proof = create_random_proof(CubeRoot { cube_root: Some(root) }, params, &mut rng).unwrap();
    let pvk = prepare_verifying_key(&params.vk);
    let good = verify_proof(&pvk, &proof, &[cube]).is_ok();
    let bad = verify_proof(&pvk, &proof, &[cube + Fr::ONE]).is_ok();
    good && !bad
}

#[test]
fn the_initial_parameters_make_proofs_that_verify() {
    let state = MPCParameters::new(synthesized(), &transcript(2)).unwrap();
    assert!(prove_and_verify(&bellman_parameters(&state), 1));
}

#[test]
fn the_parameters_after_contributions_make_proofs_that_verify() {
    let mut state = MPCParameters::new(synthesized(), &transcript(2)).unwrap();
    let first = state.contribute(&mut ChaChaRng::from_seed([11u8; 32])).unwrap();
    let second = state.contribute(&mut ChaChaRng::from_seed([12u8; 32])).unwrap();
    let receipts = state.verify(synthesized(), &transcript(2)).unwrap();
    assert_eq!(receipts, vec![first, second]);
    assert!(prove_and_verify(&bellman_parameters(&state), 2));
}

#[test]
fn a_larger_transcript_does_not_fit_the_circuit() {
    let state = MPCParameters::new(synthesized(), &transcript(2)).unwrap();
    // The transcript for eight constraints starts alike but holds other
    // coefficients: the parameters differ and the audit fails.
    let other = MPCParameters::new(synthesized(), &transcript(3));
    assert!(other.is_ok());
    assert!(other.unwrap() != state);
}
