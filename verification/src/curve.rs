//! Scalars and group elements of BLS12-381, held by their canonical encodings.
//!
//! A value of [`Scalar`], [`G1Point`] or [`G2Point`] is the byte string that
//! `bls12_381` writes for it. The arithmetic is done by `bls12_381`; what a
//! call returns is named by a function of the encodings that went in.

use crate::bytes::bytes_equal;
use ff::Field;
use group::prime::PrimeCurveAffine;
use group::Curve;
use group::Group;
use pairing::PairingCurveAffine;
use vstd::prelude::*;

verus! {

/// `bls12_381::Gt`, an element of the target group of the pairing. Nothing is
/// known of what a value holds.
#[verifier::external_type_specification]
#[verifier::external_body]
pub struct ExGt(bls12_381::Gt);

/// `rand_chacha::ChaCha20Rng`, the ChaCha stream generator that contributors
/// draw from. Nothing is known of what a value holds.
#[verifier::external_type_specification]
#[verifier::external_body]
pub struct ExChaChaRng(rand_chacha::ChaCha20Rng);

/// Whether 32 bytes are the little-endian form of a scalar below the modulus:
/// what `Scalar::from_bytes` accepts.
pub uninterp spec fn scalar_encoding(bytes: Seq<u8>) -> bool;

/// Whether 96 bytes are well formed as the uncompressed form of a G1 element:
/// what `G1Affine::from_uncompressed_unchecked` accepts.
pub uninterp spec fn g1_encoding(bytes: Seq<u8>) -> bool;

/// Whether 96 bytes encode a point on the curve and in the subgroup of prime
/// order: what `G1Affine::from_uncompressed` accepts.
pub uninterp spec fn g1_member(bytes: Seq<u8>) -> bool;

/// Whether 192 bytes are well formed as the uncompressed form of a G2 element:
/// what `G2Affine::from_uncompressed_unchecked` accepts.
pub uninterp spec fn g2_encoding(bytes: Seq<u8>) -> bool;

/// Whether 192 bytes encode a point on the twist and in the subgroup of prime
/// order: what `G2Affine::from_uncompressed` accepts.
pub uninterp spec fn g2_member(bytes: Seq<u8>) -> bool;

/// The encoding of the inverse of an encoded scalar, as `Scalar::invert` gives
/// it.
pub uninterp spec fn scalar_inverse(scalar: Seq<u8>) -> Seq<u8>;

/// The encoding of `scalar` times the G1 element that `point` encodes, as the
/// multiplication of a `G1Affine` by a `Scalar` gives it.
pub uninterp spec fn g1_scale(point: Seq<u8>, scalar: Seq<u8>) -> Seq<u8>;

/// The encoding of what `group::Wnaf` gives for a base and a scalar: the
/// multiple again, computed in windowed form.
pub uninterp spec fn g1_scale_windowed(point: Seq<u8>, scalar: Seq<u8>) -> Seq<u8>;

/// The encoding of the sum of two encoded G1 elements, as the addition of two
/// `G1Projective` gives it.
pub uninterp spec fn g1_sum(p: Seq<u8>, q: Seq<u8>) -> Seq<u8>;

/// The encoding of `scalar` times the G2 element that `point` encodes, as the
/// multiplication of a `G2Affine` by a `Scalar` gives it.
pub uninterp spec fn g2_scale(point: Seq<u8>, scalar: Seq<u8>) -> Seq<u8>;

/// The encoding of the sum of two encoded G2 elements, as the addition of two
/// `G2Projective` gives it.
pub uninterp spec fn g2_sum(p: Seq<u8>, q: Seq<u8>) -> Seq<u8>;

/// The encoding of the G2 element that `G2Projective::random` samples from a
/// ChaCha stream with this seed.
pub uninterp spec fn g2_from_seed(seed: Seq<u8>) -> Seq<u8>;

/// The value of the pairing on an encoded G1 and an encoded G2 element, as
/// `PairingCurveAffine::pairing_with` gives it.
pub uninterp spec fn pairing_value(p: Seq<u8>, q: Seq<u8>) -> bls12_381::Gt;

/// Whether an uncompressed encoding is marked as the point at infinity: bit 6
/// of its first byte.
pub open spec fn identity_flag(bytes: Seq<u8>) -> bool {
    bytes[0] & 0x40 != 0
}

/// The encoding of the scalar zero.
pub open spec fn scalar_zero_encoding() -> Seq<u8> {
    Seq::new(32, |i: int| 0u8)
}

/// The encoding of the scalar one.
pub open spec fn scalar_one_encoding() -> Seq<u8> {
    Seq::new(32, |i: int| if i == 0 { 1u8 } else { 0u8 })
}

/// The encoding of the identity of G1: the flag, then zeros.
pub open spec fn g1_identity_encoding() -> Seq<u8> {
    Seq::new(96, |i: int| if i == 0 { 0x40u8 } else { 0u8 })
}

/// The encoding of the identity of G2: the flag, then zeros.
pub open spec fn g2_identity_encoding() -> Seq<u8> {
    Seq::new(192, |i: int| if i == 0 { 0x40u8 } else { 0u8 })
}

/// The encoding of the fixed generator of G1: its two coordinates, big-endian.
pub closed spec fn g1_generator_encoding() -> Seq<u8> {
    seq![
        0x17, 0xf1, 0xd3, 0xa7, 0x31, 0x97, 0xd7, 0x94, 0x26, 0x95, 0x63, 0x8c,
        0x4f, 0xa9, 0xac, 0x0f, 0xc3, 0x68, 0x8c, 0x4f, 0x97, 0x74, 0xb9, 0x05,
        0xa1, 0x4e, 0x3a, 0x3f, 0x17, 0x1b, 0xac, 0x58, 0x6c, 0x55, 0xe8, 0x3f,
        0xf9, 0x7a, 0x1a, 0xef, 0xfb, 0x3a, 0xf0, 0x0a, 0xdb, 0x22, 0xc6, 0xbb,
        0x08, 0xb3, 0xf4, 0x81, 0xe3, 0xaa, 0xa0, 0xf1, 0xa0, 0x9e, 0x30, 0xed,
        0x74, 0x1d, 0x8a, 0xe4, 0xfc, 0xf5, 0xe0, 0x95, 0xd5, 0xd0, 0x0a, 0xf6,
        0x00, 0xdb, 0x18, 0xcb, 0x2c, 0x04, 0xb3, 0xed, 0xd0, 0x3c, 0xc7, 0x44,
        0xa2, 0x88, 0x8a, 0xe4, 0x0c, 0xaa, 0x23, 0x29, 0x46, 0xc5, 0xe7, 0xe1,
    ]
}

/// The encoding of the fixed generator of G2: for each coordinate the second
/// component, then the first, big-endian.
pub closed spec fn g2_generator_encoding() -> Seq<u8> {
    seq![
        0x13, 0xe0, 0x2b, 0x60, 0x52, 0x71, 0x9f, 0x60, 0x7d, 0xac, 0xd3, 0xa0,
        0x88, 0x27, 0x4f, 0x65, 0x59, 0x6b, 0xd0, 0xd0, 0x99, 0x20, 0xb6, 0x1a,
        0xb5, 0xda, 0x61, 0xbb, 0xdc, 0x7f, 0x50, 0x49, 0x33, 0x4c, 0xf1, 0x12,
        0x13, 0x94, 0x5d, 0x57, 0xe5, 0xac, 0x7d, 0x05, 0x5d, 0x04, 0x2b, 0x7e,
        0x02, 0x4a, 0xa2, 0xb2, 0xf0, 0x8f, 0x0a, 0x91, 0x26, 0x08, 0x05, 0x27,
        0x2d, 0xc5, 0x10, 0x51, 0xc6, 0xe4, 0x7a, 0xd4, 0xfa, 0x40, 0x3b, 0x02,
        0xb4, 0x51, 0x0b, 0x64, 0x7a, 0xe3, 0xd1, 0x77, 0x0b, 0xac, 0x03, 0x26,
        0xa8, 0x05, 0xbb, 0xef, 0xd4, 0x80, 0x56, 0xc8, 0xc1, 0x21, 0xbd, 0xb8,
        0x06, 0x06, 0xc4, 0xa0, 0x2e, 0xa7, 0x34, 0xcc, 0x32, 0xac, 0xd2, 0xb0,
        0x2b, 0xc2, 0x8b, 0x99, 0xcb, 0x3e, 0x28, 0x7e, 0x85, 0xa7, 0x63, 0xaf,
        0x26, 0x74, 0x92, 0xab, 0x57, 0x2e, 0x99, 0xab, 0x3f, 0x37, 0x0d, 0x27,
        0x5c, 0xec, 0x1d, 0xa1, 0xaa, 0xa9, 0x07, 0x5f, 0xf0, 0x5f, 0x79, 0xbe,
        0x0c, 0xe5, 0xd5, 0x27, 0x72, 0x7d, 0x6e, 0x11, 0x8c, 0xc9, 0xcd, 0xc6,
        0xda, 0x2e, 0x35, 0x1a, 0xad, 0xfd, 0x9b, 0xaa, 0x8c, 0xbd, 0xd3, 0xa7,
        0x6d, 0x42, 0x9a, 0x69, 0x51, 0x60, 0xd1, 0x2c, 0x92, 0x3a, 0xc9, 0xcc,
        0x3b, 0xac, 0xa2, 0x89, 0xe1, 0x93, 0x54, 0x86, 0x08, 0xb8, 0x28, 0x01,
    ]
}

// ---------------------------------------------------------------------------
// Calls into `bls12_381`, on encodings.
// ---------------------------------------------------------------------------

/// Calls `Scalar::from_bytes` and reports whether it accepted the bytes.
#[verifier::external_body]
fn scalar_accepts(bytes: &[u8; 32]) -> (r: bool)
    ensures
        r == scalar_encoding(bytes@),
{
    bool::from(bls12_381::Scalar::from_bytes(bytes).is_some())
}

/// Calls `G1Affine::from_uncompressed_unchecked` and reports whether it
/// accepted the bytes.
#[verifier::external_body]
fn g1_accepts(bytes: &[u8; 96]) -> (r: bool)
    ensures
        r == g1_encoding(bytes@),
{
    bool::from(bls12_381::G1Affine::from_uncompressed_unchecked(bytes).is_some())
}

/// Calls `G1Affine::from_uncompressed` and reports whether it accepted the
/// bytes. That function first decodes without checks and then tests the point,
/// so what it accepts is well formed.
#[verifier::external_body]
fn g1_accepts_checked(bytes: &[u8; 96]) -> (r: bool)
    ensures
        r == g1_member(bytes@),
        r ==> g1_encoding(bytes@),
{
    bool::from(bls12_381::G1Affine::from_uncompressed(bytes).is_some())
}

/// Calls `G2Affine::from_uncompressed_unchecked` and reports whether it
/// accepted the bytes.
#[verifier::external_body]
fn g2_accepts(bytes: &[u8; 192]) -> (r: bool)
    ensures
        r == g2_encoding(bytes@),
{
    bool::from(bls12_381::G2Affine::from_uncompressed_unchecked(bytes).is_some())
}

/// Calls `G2Affine::from_uncompressed` and reports whether it accepted the
/// bytes. That function first decodes without checks and then tests the point,
/// so what it accepts is well formed.
#[verifier::external_body]
fn g2_accepts_checked(bytes: &[u8; 192]) -> (r: bool)
    ensures
        r == g2_member(bytes@),
        r ==> g2_encoding(bytes@),
{
    bool::from(bls12_381::G2Affine::from_uncompressed(bytes).is_some())
}

/// Calls `Scalar::one` and writes it with `Scalar::to_bytes`: the number one
/// in 32 little-endian bytes.
#[verifier::external_body]
fn scalar_one_raw() -> (r: [u8; 32])
    ensures
        scalar_encoding(r@),
        r@ == scalar_one_encoding(),
{
    bls12_381::Scalar::one().to_bytes()
}

/// Calls `Scalar::invert`, which fails on zero only, and writes the inverse
/// with `Scalar::to_bytes`.
#[verifier::external_body]
fn scalar_invert_raw(scalar: &[u8; 32]) -> (r: [u8; 32])
    requires
        scalar_encoding(scalar@),
        scalar@ != scalar_zero_encoding(),
    ensures
        scalar_encoding(r@),
        r@ == scalar_inverse(scalar@),
{
    let s = bls12_381::Scalar::from_bytes(scalar).unwrap();
    s.invert().unwrap().to_bytes()
}

/// Calls `Scalar::random` on the generator and writes the sample with
/// `Scalar::to_bytes`. Nothing is said of which scalar comes out.
#[verifier::external_body]
fn scalar_random_raw(rng: &mut rand_chacha::ChaCha20Rng) -> (r: [u8; 32])
    ensures
        scalar_encoding(r@),
{
    bls12_381::Scalar::random(&mut *rng).to_bytes()
}

/// Calls `Scalar::random` on the thread's own generator, `rand::thread_rng`,
/// and writes the sample with `Scalar::to_bytes`. Nothing is said of which
/// scalar comes out.
#[verifier::external_body]
fn scalar_random_thread_raw() -> (r: [u8; 32])
    ensures
        scalar_encoding(r@),
{
    bls12_381::Scalar::random(&mut rand::thread_rng()).to_bytes()
}

/// Calls `G1Projective::random` on the generator and writes the sample in
/// uncompressed form. The outside function clears the cofactor and samples
/// again until the point is not the identity.
#[verifier::external_body]
fn g1_random_raw(rng: &mut rand_chacha::ChaCha20Rng) -> (r: [u8; 96])
    ensures
        g1_encoding(r@),
        g1_member(r@),
        !identity_flag(r@),
{
    bls12_381::G1Projective::random(&mut *rng).to_affine().to_uncompressed()
}

/// Calls `G1Affine::identity` and writes it in uncompressed form: the flag
/// for the point at infinity over zeroed coordinates.
#[verifier::external_body]
fn g1_identity_raw() -> (r: [u8; 96])
    ensures
        g1_encoding(r@),
        r@ == g1_identity_encoding(),
{
    bls12_381::G1Affine::identity().to_uncompressed()
}

/// Calls `G1Affine::generator` and writes it in uncompressed form.
#[verifier::external_body]
fn g1_generator_raw() -> (r: [u8; 96])
    ensures
        g1_encoding(r@),
        r@ == g1_generator_encoding(),
{
    bls12_381::G1Affine::generator().to_uncompressed()
}

/// Calls the multiplication of a `G1Affine` by a `Scalar` and writes the
/// product in uncompressed form.
#[verifier::external_body]
fn g1_mul_raw(point: &[u8; 96], scalar: &[u8; 32]) -> (r: [u8; 96])
    requires
        g1_encoding(point@),
        scalar_encoding(scalar@),
    ensures
        g1_encoding(r@),
        r@ == g1_scale(point@, scalar@),
{
    let p = bls12_381::G1Affine::from_uncompressed_unchecked(point).unwrap();
    let s = bls12_381::Scalar::from_bytes(scalar).unwrap();
    (p * s).to_affine().to_uncompressed()
}

/// Calls `group::Wnaf`, with a window table for one base and one scalar, and
/// writes the result in uncompressed form. Nothing is claimed of how the
/// result relates to the plain multiplication.
#[verifier::external_body]
fn g1_wnaf_raw(point: &[u8; 96], scalar: &[u8; 32]) -> (r: [u8; 96])
    requires
        g1_encoding(point@),
        scalar_encoding(scalar@),
    ensures
        g1_encoding(r@),
        r@ == g1_scale_windowed(point@, scalar@),
{
    let p = bls12_381::G1Affine::from_uncompressed_unchecked(point).unwrap();
    let s = bls12_381::Scalar::from_bytes(scalar).unwrap();
    group::Wnaf::new().base(p.to_curve(), 1).scalar(&s).to_affine().to_uncompressed()
}

/// Calls the addition of two `G1Projective` and writes the sum in
/// uncompressed form.
#[verifier::external_body]
fn g1_add_raw(p: &[u8; 96], q: &[u8; 96]) -> (r: [u8; 96])
    requires
        g1_encoding(p@),
        g1_encoding(q@),
    ensures
        g1_encoding(r@),
        r@ == g1_sum(p@, q@),
{
    let p = bls12_381::G1Affine::from_uncompressed_unchecked(p).unwrap();
    let q = bls12_381::G1Affine::from_uncompressed_unchecked(q).unwrap();
    (p.to_curve() + q.to_curve()).to_affine().to_uncompressed()
}

/// Calls `G2Affine::identity` and writes it in uncompressed form: the flag
/// for the point at infinity over zeroed coordinates.
#[verifier::external_body]
fn g2_identity_raw() -> (r: [u8; 192])
    ensures
        g2_encoding(r@),
        r@ == g2_identity_encoding(),
{
    bls12_381::G2Affine::identity().to_uncompressed()
}

/// Calls `G2Affine::generator` and writes it in uncompressed form.
#[verifier::external_body]
fn g2_generator_raw() -> (r: [u8; 192])
    ensures
        g2_encoding(r@),
        r@ == g2_generator_encoding(),
{
    bls12_381::G2Affine::generator().to_uncompressed()
}

/// Calls the multiplication of a `G2Affine` by a `Scalar` and writes the
/// product in uncompressed form.
#[verifier::external_body]
fn g2_mul_raw(point: &[u8; 192], scalar: &[u8; 32]) -> (r: [u8; 192])
    requires
        g2_encoding(point@),
        scalar_encoding(scalar@),
    ensures
        g2_encoding(r@),
        r@ == g2_scale(point@, scalar@),
{
    let p = bls12_381::G2Affine::from_uncompressed_unchecked(point).unwrap();
    let s = bls12_381::Scalar::from_bytes(scalar).unwrap();
    (p * s).to_affine().to_uncompressed()
}

/// Calls the addition of two `G2Projective` and writes the sum in
/// uncompressed form.
#[verifier::external_body]
fn g2_add_raw(p: &[u8; 192], q: &[u8; 192]) -> (r: [u8; 192])
    requires
        g2_encoding(p@),
        g2_encoding(q@),
    ensures
        g2_encoding(r@),
        r@ == g2_sum(p@, q@),
{
    let p = bls12_381::G2Affine::from_uncompressed_unchecked(p).unwrap();
    let q = bls12_381::G2Affine::from_uncompressed_unchecked(q).unwrap();
    (p.to_curve() + q.to_curve()).to_affine().to_uncompressed()
}

/// Seeds a ChaCha generator with `ChaChaRng::from_seed` and calls
/// `G2Projective::random` on it, then writes the sample in uncompressed form.
/// The outside function clears the cofactor and samples again until the point
/// is not the identity, so every sample is in the subgroup and is not the
/// identity.
#[verifier::external_body]
fn g2_from_seed_raw(seed: &[u8; 32]) -> (r: [u8; 192])
    ensures
        g2_encoding(r@),
        g2_member(r@),
        !identity_flag(r@),
        r@ == g2_from_seed(seed@),
{
    let mut rng = <rand_chacha::ChaCha20Rng as rand::SeedableRng>::from_seed(*seed);
    bls12_381::G2Projective::random(&mut rng).to_affine().to_uncompressed()
}

/// Calls `PairingCurveAffine::pairing_with` of the `pairing` crate on a
/// `G1Affine` and a `G2Affine`, which `bls12_381` implements by its `pairing`.
/// The outside function is defined on elements of the two subgroups only: on
/// other input its final exponentiation may meet zero and panic. What
/// `from_uncompressed` accepts, its decoder without checks accepts too.
#[verifier::external_body]
fn pairing_raw(p: &[u8; 96], q: &[u8; 192]) -> (r: bls12_381::Gt)
    requires
        g1_member(p@),
        g2_member(q@),
    ensures
        r == pairing_value(p@, q@),
{
    let p = bls12_381::G1Affine::from_uncompressed_unchecked(p).unwrap();
    let q = bls12_381::G2Affine::from_uncompressed_unchecked(q).unwrap();
    p.pairing_with(&q)
}

/// Calls the `==` of `Gt`, which compares the two field elements.
#[verifier::external_body]
fn gt_equal(a: &bls12_381::Gt, b: &bls12_381::Gt) -> (r: bool)
    ensures
        r == (*a == *b),
{
    a == b
}

// ---------------------------------------------------------------------------
// Scalars
// ---------------------------------------------------------------------------

/// An element of the scalar field, as 32 little-endian bytes below the modulus.
#[derive(Clone, Copy, Debug)]
pub struct Scalar {
    bytes: [u8; 32],
}

impl View for Scalar {
    type V = Seq<u8>;

    closed spec fn view(&self) -> Seq<u8> {
        self.bytes@
    }
}

impl Scalar {
    #[verifier::type_invariant]
    spec fn inv(self) -> bool {
        scalar_encoding(self.bytes@)
    }

    /// Every scalar is 32 bytes.
    pub broadcast proof fn lemma_len(self)
        ensures
            #[trigger] self@.len() == 32,
    {
    }

    /// The scalar that `bytes` encode, if they encode one.
    pub fn from_bytes(bytes: &[u8; 32]) -> (r: Option<Scalar>)
        ensures
            r is Some <==> scalar_encoding(bytes@),
            r matches Some(s) ==> s@ == bytes@,
    {
        if scalar_accepts(bytes) {
            Some(Scalar { bytes: *bytes })
        } else {
            None
        }
    }

    /// The scalar one.
    pub fn one() -> (r: Scalar)
        ensures
            r@ == scalar_one_encoding(),
    {
        Scalar { bytes: scalar_one_raw() }
    }

    /// The 32 bytes of this scalar.
    pub fn to_bytes(&self) -> (r: [u8; 32])
        ensures
            r@ == self@,
    {
        self.bytes
    }

    /// Whether this is the scalar zero.
    pub fn is_zero(&self) -> (r: bool)
        ensures
            r == (self@ == scalar_zero_encoding()),
    {
        let mut i: usize = 0;
        while i < 32
            invariant
                i <= 32,
                forall|j: int| 0 <= j < i ==> self.bytes@[j] == 0,
            decreases 32 - i,
        {
            if self.bytes[i] != 0 {
                assert(self.bytes@[i as int] != scalar_zero_encoding()[i as int]);
                return false;
            }
            i += 1;
        }
        assert(self.bytes@ =~= scalar_zero_encoding());
        true
    }

    /// The multiplicative inverse, or `None` for zero.
    pub fn invert(&self) -> (r: Option<Scalar>)
        ensures
            r is Some <==> self@ != scalar_zero_encoding(),
            r matches Some(s) ==> s@ == scalar_inverse(self@),
    {
        if self.is_zero() {
            None
        } else {
            proof {
                use_type_invariant(self);
            }
            Some(Scalar { bytes: scalar_invert_raw(&self.bytes) })
        }
    }

    /// A scalar drawn from `rng`. Which scalar comes out is left to the
    /// generator; whichever it is, it is held in its canonical form.
    pub fn random(rng: &mut rand_chacha::ChaCha20Rng) -> (r: Scalar)
        ensures
            scalar_encoding(r@),
            r@.len() == 32,
    {
        Scalar { bytes: scalar_random_raw(rng) }
    }

    /// A scalar drawn from the thread's own generator. Which scalar comes out
    /// is left to the generator; whichever it is, it is held in its canonical
    /// form.
    pub fn random_local() -> (r: Scalar)
        ensures
            scalar_encoding(r@),
            r@.len() == 32,
    {
        Scalar { bytes: scalar_random_thread_raw() }
    }

    /// Whether two scalars are the same.
    pub fn same(&self, other: &Scalar) -> (r: bool)
        ensures
            r == (self@ == other@),
    {
        bytes_equal(self.bytes.as_slice(), other.bytes.as_slice())
    }
}

// ---------------------------------------------------------------------------
// G1
// ---------------------------------------------------------------------------

/// An element of G1, as the 96 bytes of its uncompressed form.
#[derive(Clone, Copy, Debug)]
pub struct G1Point {
    bytes: [u8; 96],
}

impl View for G1Point {
    type V = Seq<u8>;

    closed spec fn view(&self) -> Seq<u8> {
        self.bytes@
    }
}

impl G1Point {
    #[verifier::type_invariant]
    spec fn inv(self) -> bool {
        g1_encoding(self.bytes@)
    }

    /// Every G1 element is 96 bytes.
    pub broadcast proof fn lemma_len(self)
        ensures
            #[trigger] self@.len() == 96,
    {
    }

    /// The element that `bytes` encode, if they encode a point on the curve
    /// and in the subgroup of prime order.
    pub fn from_uncompressed(bytes: &[u8; 96]) -> (r: Option<G1Point>)
        ensures
            r is Some <==> g1_member(bytes@),
            r matches Some(p) ==> p@ == bytes@,
    {
        if g1_accepts_checked(bytes) {
            Some(G1Point { bytes: *bytes })
        } else {
            None
        }
    }

    /// The element that `bytes` encode, if they are well formed. Neither the
    /// curve equation nor the subgroup is checked.
    pub fn from_uncompressed_unchecked(bytes: &[u8; 96]) -> (r: Option<G1Point>)
        ensures
            r is Some <==> g1_encoding(bytes@),
            r matches Some(p) ==> p@ == bytes@,
    {
        if g1_accepts(bytes) {
            Some(G1Point { bytes: *bytes })
        } else {
            None
        }
    }

    /// The 96 bytes of this element.
    pub fn to_uncompressed(&self) -> (r: [u8; 96])
        ensures
            r@ == self@,
    {
        self.bytes
    }

    /// Whether this element is on the curve and in the subgroup.
    pub fn is_member(&self) -> (r: bool)
        ensures
            r == g1_member(self@),
    {
        g1_accepts_checked(&self.bytes)
    }

    /// Whether this is the identity, the point at infinity.
    pub fn is_identity(&self) -> (r: bool)
        ensures
            r == identity_flag(self@),
    {
        self.bytes[0] & 0x40 != 0
    }

    /// The identity of G1.
    pub fn identity() -> (r: G1Point)
        ensures
            r@ == g1_identity_encoding(),
    {
        G1Point { bytes: g1_identity_raw() }
    }

    /// The fixed generator of G1.
    pub fn generator() -> (r: G1Point)
        ensures
            r@ == g1_generator_encoding(),
    {
        G1Point { bytes: g1_generator_raw() }
    }

    /// An element of the subgroup other than the identity, drawn from `rng`.
    pub fn random(rng: &mut rand_chacha::ChaCha20Rng) -> (r: G1Point)
        ensures
            g1_member(r@),
            !identity_flag(r@),
    {
        G1Point { bytes: g1_random_raw(rng) }
    }

    /// This element times `scalar`.
    pub fn scale(&self, scalar: &Scalar) -> (r: G1Point)
        ensures
            r@ == g1_scale(self@, scalar@),
    {
        proof {
            use_type_invariant(self);
            use_type_invariant(scalar);
        }
        G1Point { bytes: g1_mul_raw(&self.bytes, &scalar.bytes) }
    }

    /// This element times `scalar`, computed in windowed form.
    pub fn scale_windowed(&self, scalar: &Scalar) -> (r: G1Point)
        ensures
            r@ == g1_scale_windowed(self@, scalar@),
    {
        proof {
            use_type_invariant(self);
            use_type_invariant(scalar);
        }
        G1Point { bytes: g1_wnaf_raw(&self.bytes, &scalar.bytes) }
    }

    /// The sum of this element and `other`.
    pub fn plus(&self, other: &G1Point) -> (r: G1Point)
        ensures
            r@ == g1_sum(self@, other@),
    {
        proof {
            use_type_invariant(self);
            use_type_invariant(other);
        }
        G1Point { bytes: g1_add_raw(&self.bytes, &other.bytes) }
    }

    /// Whether two elements are the same.
    pub fn same(&self, other: &G1Point) -> (r: bool)
        ensures
            r == (self@ == other@),
    {
        bytes_equal(self.bytes.as_slice(), other.bytes.as_slice())
    }
}

// ---------------------------------------------------------------------------
// G2
// ---------------------------------------------------------------------------

/// An element of G2, as the 192 bytes of its uncompressed form.
#[derive(Clone, Copy, Debug)]
pub struct G2Point {
    bytes: [u8; 192],
}

impl View for G2Point {
    type V = Seq<u8>;

    closed spec fn view(&self) -> Seq<u8> {
        self.bytes@
    }
}

impl G2Point {
    #[verifier::type_invariant]
    spec fn inv(self) -> bool {
        g2_encoding(self.bytes@)
    }

    /// Every G2 element is 192 bytes.
    pub broadcast proof fn lemma_len(self)
        ensures
            #[trigger] self@.len() == 192,
    {
    }

    /// The element that `bytes` encode, if they encode a point on the twist
    /// and in the subgroup of prime order.
    pub fn from_uncompressed(bytes: &[u8; 192]) -> (r: Option<G2Point>)
        ensures
            r is Some <==> g2_member(bytes@),
            r matches Some(p) ==> p@ == bytes@,
    {
        if g2_accepts_checked(bytes) {
            Some(G2Point { bytes: *bytes })
        } else {
            None
        }
    }

    /// The element that `bytes` encode, if they are well formed. Neither the
    /// curve equation nor the subgroup is checked.
    pub fn from_uncompressed_unchecked(bytes: &[u8; 192]) -> (r: Option<G2Point>)
        ensures
            r is Some <==> g2_encoding(bytes@),
            r matches Some(p) ==> p@ == bytes@,
    {
        if g2_accepts(bytes) {
            Some(G2Point { bytes: *bytes })
        } else {
            None
        }
    }

    /// The 192 bytes of this element.
    pub fn to_uncompressed(&self) -> (r: [u8; 192])
        ensures
            r@ == self@,
    {
        self.bytes
    }

    /// Whether this element is on the twist and in the subgroup.
    pub fn is_member(&self) -> (r: bool)
        ensures
            r == g2_member(self@),
    {
        g2_accepts_checked(&self.bytes)
    }

    /// Whether this is the identity, the point at infinity.
    pub fn is_identity(&self) -> (r: bool)
        ensures
            r == identity_flag(self@),
    {
        self.bytes[0] & 0x40 != 0
    }

    /// The identity of G2.
    pub fn identity() -> (r: G2Point)
        ensures
            r@ == g2_identity_encoding(),
    {
        G2Point { bytes: g2_identity_raw() }
    }

    /// The fixed generator of G2.
    pub fn generator() -> (r: G2Point)
        ensures
            r@ == g2_generator_encoding(),
    {
        G2Point { bytes: g2_generator_raw() }
    }

    /// The element sampled from a ChaCha stream seeded with `seed`: an element
    /// of the subgroup other than the identity.
    pub fn from_seed(seed: &[u8; 32]) -> (r: G2Point)
        ensures
            r@ == g2_from_seed(seed@),
            g2_member(r@),
            !identity_flag(r@),
    {
        G2Point { bytes: g2_from_seed_raw(seed) }
    }

    /// This element times `scalar`.
    pub fn scale(&self, scalar: &Scalar) -> (r: G2Point)
        ensures
            r@ == g2_scale(self@, scalar@),
    {
        proof {
            use_type_invariant(self);
            use_type_invariant(scalar);
        }
        G2Point { bytes: g2_mul_raw(&self.bytes, &scalar.bytes) }
    }

    /// The sum of this element and `other`.
    pub fn plus(&self, other: &G2Point) -> (r: G2Point)
        ensures
            r@ == g2_sum(self@, other@),
    {
        proof {
            use_type_invariant(self);
            use_type_invariant(other);
        }
        G2Point { bytes: g2_add_raw(&self.bytes, &other.bytes) }
    }

    /// Whether two elements are the same.
    pub fn same(&self, other: &G2Point) -> (r: bool)
        ensures
            r == (self@ == other@),
    {
        bytes_equal(self.bytes.as_slice(), other.bytes.as_slice())
    }
}

// ---------------------------------------------------------------------------
// The pairing
// ---------------------------------------------------------------------------

/// Whether the pairing is defined on `(p, q)` and on `(x, y)`, all four being
/// elements of their subgroups, and takes the same value on both.
pub open spec fn spec_pairings_agree(p: Seq<u8>, q: Seq<u8>, x: Seq<u8>, y: Seq<u8>) -> bool {
    &&& g1_member(p)
    &&& g2_member(q)
    &&& g1_member(x)
    &&& g2_member(y)
    &&& pairing_value(p, q) == pairing_value(x, y)
}

/// Whether the pairing takes the same value on `(p, q)` and on `(x, y)`. The
/// pairing is taken of elements of the subgroups only: where one of the four
/// is off its curve or outside its subgroup, the answer is `false`.
pub fn pairings_agree(p: &G1Point, q: &G2Point, x: &G1Point, y: &G2Point) -> (r: bool)
    ensures
        r == spec_pairings_agree(p@, q@, x@, y@),
{
    if !p.is_member() || !q.is_member() || !x.is_member() || !y.is_member() {
        return false;
    }
    let left = pairing_raw(&p.bytes, &q.bytes);
    let right = pairing_raw(&x.bytes, &y.bytes);
    gt_equal(&left, &right)
}

} // verus!
