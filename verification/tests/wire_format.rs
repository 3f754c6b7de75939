use bls12_381::{G1Affine, G1Projective, G2Affine, G2Projective, Scalar as Fr};
use group::Curve;
use phase2::bytes::{bytes_equal, take};
use phase2::curve::{G1Point, G2Point};
use phase2::groth16::{Parameters, VerifyingKey};
use phase2::keys::{hash_to_g2, PublicKey, PUBLIC_KEY_LEN};
use phase2::mpc::MPCParameters;
use phase2::wire::{read_g1, read_g1_list, read_g2, ReadError};

fn g1(k: u64) -> G1Point {
    let point = (G1Projective::generator() * Fr::from(k)).to_affine();
    G1Point::from_uncompressed(&point.to_uncompressed()).unwrap()
}

fn g2(k: u64) -> G2Point {
    let point = (G2Projective::generator() * Fr::from(k)).to_affine();
    G2Point::from_uncompressed(&point.to_uncompressed()).unwrap()
}

fn key(k: u64) -> PublicKey {
    PublicKey {
        delta_after: g1(k),
        s: g1(k + 1),
        s_delta: g1(k + 2),
        r_delta: g2(k + 3),
        transcript: [k as u8; 64],
    }
}

fn sample_parameters() -> Parameters {
    Parameters {
        vk: VerifyingKey {
            alpha_g1: g1(2),
            beta_g1: g1(3),
            beta_g2: g2(3),
            gamma_g2: G2Point::generator(),
            delta_g1: g1(5),
            delta_g2: g2(5),
            ic: vec![g1(6), g1(7)],
        },
        h: vec![g1(8), g1(9), g1(10)],
        l: vec![g1(11)],
        a: vec![g1(12), g1(13)],
        b_g1: vec![],
        b_g2: vec![g2(14)],
    }
}

fn sample_state() -> MPCParameters {
    MPCParameters::from_parts(sample_parameters(), [7u8; 64], vec![key(20), key(30)]).unwrap()
}

/// An element that is well formed but not on the curve.
fn off_curve() -> [u8; 96] {
    let mut bytes = [0u8; 96];
    bytes[47] = 1;
    bytes[95] = 1;
    bytes
}

#[test]
fn bytes_equal_compares_length_and_content() {
    assert!(bytes_equal(&[], &[]));
    assert!(bytes_equal(&[1, 2, 3], &[1, 2, 3]));
    assert!(!bytes_equal(&[1, 2, 3], &[1, 2, 4]));
    assert!(!bytes_equal(&[1, 2, 3], &[1, 2]));
    assert!(!bytes_equal(&[], &[0]));
}

#[test]
fn take_copies_from_the_position() {
    let data = [9u8, 8, 7, 6, 5, 4];
    let got: [u8; 3] = take(&data, 2);
    assert_eq!(got, [7, 6, 5]);
    let all: [u8; 6] = take(&data, 0);
    assert_eq!(all, data);
    let none: [u8; 0] = take(&data, 6);
    assert_eq!(none.len(), 0);
}

#[test]
fn a_public_key_takes_544_bytes_in_the_order_of_its_fields() {
    let k = key(40);
    let bytes = k.to_bytes();
    assert_eq!(bytes.len(), PUBLIC_KEY_LEN);
    assert_eq!(bytes.len(), 544);
    assert_eq!(bytes[0..96].to_vec(), k.delta_after.to_uncompressed().to_vec());
    assert_eq!(bytes[96..192].to_vec(), k.s.to_uncompressed().to_vec());
    assert_eq!(bytes[192..288].to_vec(), k.s_delta.to_uncompressed().to_vec());
    assert_eq!(bytes[288..480].to_vec(), k.r_delta.to_uncompressed().to_vec());
    assert_eq!(bytes[480..544].to_vec(), vec![40u8; 64]);
    let mut appended = vec![1u8, 2, 3];
    k.write(&mut appended);
    assert_eq!(appended[0..3].to_vec(), vec![1u8, 2, 3]);
    assert_eq!(appended[3..].to_vec(), bytes);
}

#[test]
fn a_public_key_reads_back_as_it_was_written() {
    let k = key(50);
    let mut bytes = k.to_bytes();
    assert!(PublicKey::read(&bytes) == Ok(k));
    bytes.extend_from_slice(&[0xaa; 5]);
    assert!(PublicKey::read(&bytes) == Ok(k));
    let shifted = [vec![0u8; 7], k.to_bytes()].concat();
    assert!(PublicKey::read_at(&shifted, 7) == Ok(k));
    assert!(key(50) == key(50));
    assert!(key(50) != key(51));
}

#[test]
fn a_short_public_key_is_an_unexpected_end() {
    let bytes = key(60).to_bytes();
    for cut in [0usize, 95, 96, 191, 287, 479, 480, 543] {
        assert_eq!(PublicKey::read(&bytes[..cut]).err(), Some(ReadError::UnexpectedEof));
    }
}

#[test]
fn a_public_key_with_the_identity_is_rejected() {
    let identity1 = G1Affine::identity().to_uncompressed();
    let identity2 = G2Affine::identity().to_uncompressed();
    for start in [0usize, 96, 192] {
        let mut bytes = key(70).to_bytes();
        bytes[start..start + 96].copy_from_slice(&identity1);
        assert_eq!(PublicKey::read(&bytes).err(), Some(ReadError::PointAtInfinity));
    }
    let mut bytes = key(70).to_bytes();
    bytes[288..480].copy_from_slice(&identity2);
    assert_eq!(PublicKey::read(&bytes).err(), Some(ReadError::PointAtInfinity));
}

#[test]
fn a_public_key_off_the_curve_is_rejected() {
    let mut bytes = key(80).to_bytes();
    bytes[96..192].copy_from_slice(&off_curve());
    assert_eq!(PublicKey::read(&bytes).err(), Some(ReadError::InvalidPoint));
    // The first failure is the one reported.
    bytes[0..96].copy_from_slice(&G1Affine::identity().to_uncompressed());
    assert_eq!(PublicKey::read(&bytes).err(), Some(ReadError::PointAtInfinity));
}

#[test]
fn read_g1_checks_only_what_it_is_asked_to() {
    let bytes = off_curve();
    assert!(read_g1(&bytes, 0, false, true).is_ok());
    assert_eq!(read_g1(&bytes, 0, true, true).err(), Some(ReadError::InvalidPoint));
    let identity = G1Affine::identity().to_uncompressed();
    assert!(read_g1(&identity, 0, true, false).unwrap().is_identity());
    assert_eq!(read_g1(&identity, 0, true, true).err(), Some(ReadError::PointAtInfinity));
    assert_eq!(read_g1(&identity, 1, true, false).err(), Some(ReadError::UnexpectedEof));
    let identity2 = G2Affine::identity().to_uncompressed();
    assert!(read_g2(&identity2, 0, true, false).unwrap().is_identity());
    assert_eq!(read_g2(&identity2, 0, false, true).err(), Some(ReadError::PointAtInfinity));
    assert_eq!(read_g2(&identity2[..191], 0, false, true).err(), Some(ReadError::UnexpectedEof));
}

#[test]
fn read_g1_list_reads_in_order_and_stops_at_the_first_failure() {
    let mut bytes = vec![];
    for k in 1..4u64 {
        bytes.extend_from_slice(&g1(k).to_uncompressed());
    }
    let points = read_g1_list(&bytes, 0, 3, true).unwrap();
    assert_eq!(points.len(), 3);
    for (i, point) in points.iter().enumerate() {
        assert!(point.same(&g1(i as u64 + 1)));
    }
    assert_eq!(read_g1_list(&bytes, 0, 0, true).unwrap().len(), 0);
    assert_eq!(read_g1_list(&bytes, 96, 2, true).unwrap().len(), 2);
    assert_eq!(read_g1_list(&bytes, 0, 4, true).err(), Some(ReadError::UnexpectedEof));
    bytes[96..192].copy_from_slice(&off_curve());
    assert_eq!(read_g1_list(&bytes, 0, 4, true).err(), Some(ReadError::InvalidPoint));
    assert_eq!(read_g1_list(&bytes, 0, 1, true).unwrap().len(), 1);
}

#[test]
fn parameters_are_laid_out_as_lists_with_big_endian_counts() {
    let params = sample_parameters();
    let mut bytes = vec![];
    params.write(&mut bytes);
    // The verifying key: three elements of G1 and three of G2.
    let head = 3 * 96 + 3 * 192;
    assert_eq!(bytes[0..96].to_vec(), g1(2).to_uncompressed().to_vec());
    assert_eq!(bytes[head..head + 4].to_vec(), vec![0u8, 0, 0, 2]);
    let at_h = head + 4 + 2 * 96;
    assert_eq!(bytes[at_h..at_h + 4].to_vec(), vec![0u8, 0, 0, 3]);
    let at_l = at_h + 4 + 3 * 96;
    assert_eq!(bytes[at_l..at_l + 4].to_vec(), vec![0u8, 0, 0, 1]);
    let at_a = at_l + 4 + 96;
    assert_eq!(bytes[at_a..at_a + 4].to_vec(), vec![0u8, 0, 0, 2]);
    let at_b1 = at_a + 4 + 2 * 96;
    assert_eq!(bytes[at_b1..at_b1 + 4].to_vec(), vec![0u8, 0, 0, 0]);
    let at_b2 = at_b1 + 4;
    assert_eq!(bytes[at_b2..at_b2 + 4].to_vec(), vec![0u8, 0, 0, 1]);
    assert_eq!(bytes.len(), at_b2 + 4 + 192);
}

#[test]
fn bellman_reads_the_parameters_that_the_library_writes() {
    let params = sample_parameters();
    let mut bytes = vec![];
    params.write(&mut bytes);
    let theirs = bellman::groth16::Parameters::<bls12_381::Bls12>::read(&bytes[..], true).unwrap();
    assert_eq!(theirs.h.len(), 3);
    assert_eq!(theirs.vk.ic.len(), 2);
    assert_eq!(theirs.vk.delta_g1.to_uncompressed().to_vec(), g1(5).to_uncompressed().to_vec());
    assert_eq!(theirs.b_g2[0].to_uncompressed().to_vec(), g2(14).to_uncompressed().to_vec());
    let mut again = vec![];
    theirs.write(&mut again).unwrap();
    assert_eq!(again, bytes);
    let (ours, next) = Parameters::read_at(&again, 0, true).unwrap();
    assert_eq!(next, again.len());
    assert!(ours == params);
}

#[test]
fn parameters_read_back_as_they_were_written() {
    let params = sample_parameters();
    let mut bytes = vec![0xeeu8; 3];
    params.write(&mut bytes);
    bytes.extend_from_slice(&[0x11; 9]);
    for checked in [true, false] {
        let (back, next) = Parameters::read_at(&bytes, 3, checked).unwrap();
        assert!(back == params);
        assert_eq!(next, bytes.len() - 9);
    }
    assert!(params.clone() == params);
}

#[test]
fn unchecked_parameters_may_hold_elements_off_the_curve() {
    let mut params = sample_parameters();
    params.h[1] = G1Point::from_uncompressed_unchecked(&off_curve()).unwrap();
    let mut bytes = vec![];
    params.write(&mut bytes);
    let (back, _) = Parameters::read_at(&bytes, 0, false).unwrap();
    assert!(back == params);
    assert_eq!(Parameters::read_at(&bytes, 0, true).err(), Some(ReadError::InvalidPoint));
}

#[test]
fn the_verifying_key_is_always_checked_and_may_hold_the_identity() {
    let mut params = sample_parameters();
    params.vk.beta_g1 = G1Point::identity();
    let mut bytes = vec![];
    params.write(&mut bytes);
    let (back, _) = Parameters::read_at(&bytes, 0, false).unwrap();
    assert!(back == params);
    params.vk.beta_g1 = G1Point::from_uncompressed_unchecked(&off_curve()).unwrap();
    let mut bytes = vec![];
    params.write(&mut bytes);
    assert_eq!(Parameters::read_at(&bytes, 0, false).err(), Some(ReadError::InvalidPoint));
    let mut params = sample_parameters();
    params.vk.ic[1] = G1Point::identity();
    let mut bytes = vec![];
    params.write(&mut bytes);
    assert_eq!(Parameters::read_at(&bytes, 0, false).err(), Some(ReadError::PointAtInfinity));
}

#[test]
fn a_query_with_the_identity_is_rejected() {
    let mut params = sample_parameters();
    params.a[0] = G1Point::identity();
    let mut bytes = vec![];
    params.write(&mut bytes);
    for checked in [true, false] {
        assert_eq!(
            Parameters::read_at(&bytes, 0, checked).err(),
            Some(ReadError::PointAtInfinity)
        );
    }
}

#[test]
fn a_state_reads_back_as_it_was_written() {
    let state = sample_state();
    let mut bytes = vec![];
    state.write(&mut bytes);
    for checked in [true, false] {
        let back = MPCParameters::read(&bytes, checked).unwrap();
        assert!(back == state);
        assert!(back.get_params() == state.get_params());
        assert_eq!(back.cs_hash().to_vec(), vec![7u8; 64]);
        assert_eq!(back.contributions().len(), 2);
        assert!(back.contributions()[1] == key(30));
        let mut again = vec![];
        back.write(&mut again);
        assert_eq!(again, bytes);
    }
    bytes.extend_from_slice(&[1, 2, 3]);
    assert!(MPCParameters::read(&bytes, true).unwrap() == state);
}

#[test]
fn a_state_is_its_parameters_its_hash_and_its_counted_chain() {
    let state = sample_state();
    let mut bytes = vec![];
    state.write(&mut bytes);
    let mut params = vec![];
    state.get_params().write(&mut params);
    let n = params.len();
    assert_eq!(bytes[..n].to_vec(), params);
    assert_eq!(bytes[n..n + 64].to_vec(), vec![7u8; 64]);
    assert_eq!(bytes[n + 64..n + 68].to_vec(), vec![0u8, 0, 0, 2]);
    assert_eq!(bytes[n + 68..n + 68 + 544].to_vec(), key(20).to_bytes());
    assert_eq!(bytes[n + 68 + 544..].to_vec(), key(30).to_bytes());
}

#[test]
fn a_cut_state_is_an_unexpected_end() {
    let state = sample_state();
    let mut bytes = vec![];
    state.write(&mut bytes);
    let mut params = vec![];
    state.get_params().write(&mut params);
    let n = params.len();
    for cut in [0, 10, n - 1, n, n + 63, n + 67, n + 68, n + 68 + 544, bytes.len() - 1] {
        assert_eq!(
            MPCParameters::read(&bytes[..cut], true).err(),
            Some(ReadError::UnexpectedEof)
        );
    }
}

#[test]
fn the_chain_of_a_state_is_always_checked() {
    let state = sample_state();
    let mut bytes = vec![];
    state.write(&mut bytes);
    let mut params = vec![];
    state.get_params().write(&mut params);
    let at = params.len() + 68 + 544 + 96;
    bytes[at..at + 96].copy_from_slice(&off_curve());
    assert_eq!(MPCParameters::read(&bytes, false).err(), Some(ReadError::InvalidPoint));
}

#[test]
fn states_differ_when_any_part_differs() {
    let state = sample_state();
    let other_hash =
        MPCParameters::from_parts(sample_parameters(), [8u8; 64], vec![key(20), key(30)]).unwrap();
    let other_chain =
        MPCParameters::from_parts(sample_parameters(), [7u8; 64], vec![key(20)]).unwrap();
    let mut params = sample_parameters();
    params.l[0] = g1(99);
    let other_params =
        MPCParameters::from_parts(params, [7u8; 64], vec![key(20), key(30)]).unwrap();
    assert!(state == sample_state());
    assert!(state != other_hash);
    assert!(state != other_chain);
    assert!(state != other_params);
    assert!(state.clone() == state);
}

#[test]
fn hash_to_g2_depends_on_the_first_32_bytes_only() {
    let mut digest = [3u8; 64];
    let a = hash_to_g2(&digest);
    digest[40] = 9;
    let b = hash_to_g2(&digest);
    digest[31] = 9;
    let c = hash_to_g2(&digest);
    assert!(a.same(&b));
    assert!(!a.same(&c));
    assert!(!a.is_identity());
    assert!(a.is_member());
    assert!(a.same(&G2Point::from_seed(&[3u8; 32])));
}

#[test]
fn the_frame_of_a_state_ends_with_its_last_key() {
    let state = sample_state();
    let mut bytes = vec![];
    state.write(&mut bytes);
    let total = bytes.len() as u64;
    assert_eq!(MPCParameters::frame_len(&bytes), total);
    let mut longer = bytes.clone();
    longer.extend_from_slice(&[0xabu8; 100]);
    assert_eq!(MPCParameters::frame_len(&longer), total);
    // Before the count of IC is there, the frame ends with it.
    assert_eq!(MPCParameters::frame_len(&[]), 868);
    assert_eq!(MPCParameters::frame_len(&bytes[..867]), 868);
    // Then with the count of H, after the two elements of IC.
    assert_eq!(MPCParameters::frame_len(&bytes[..868]), 868 + 2 * 96 + 4);
    assert_eq!(MPCParameters::frame_len(&bytes[..900]), 868 + 2 * 96 + 4);
    // Every cut asks for more, up to the end.
    for cut in 0..bytes.len() {
        let frame = MPCParameters::frame_len(&bytes[..cut]);
        assert!(frame > cut as u64);
        assert!(frame <= total);
    }
}

#[test]
fn a_reader_that_follows_the_frame_takes_the_state_and_no_more() {
    let state = sample_state();
    let mut stream = vec![];
    state.write(&mut stream);
    let total = stream.len();
    stream.extend_from_slice(&[0x77u8; 50]);
    let mut taken: Vec<u8> = vec![];
    let mut steps = 0;
    loop {
        let needed = MPCParameters::frame_len(&taken) as usize;
        if needed <= taken.len() {
            break;
        }
        taken.extend_from_slice(&stream[taken.len()..needed]);
        steps += 1;
    }
    assert_eq!(taken.len(), total);
    assert_eq!(steps, 8);
    assert!(MPCParameters::read(&taken, true).unwrap() == state);
}
