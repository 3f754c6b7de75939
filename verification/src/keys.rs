//! The public key of a contribution: the proof that its author knew the
//! secret it was made with.

use crate::bytes::{bytes_equal, take};
use crate::curve::{g1_member, g2_from_seed, g2_member, identity_flag, G1Point, G2Point, Scalar};
use crate::hasher::{blake2b_64, hash_bytes};
use crate::wire::{read_g1, read_g2, spec_read_g1, spec_read_g2, ReadError};
use vstd::prelude::*;

verus! {

/// A public key as plain data: the encodings of its four elements and the
/// transcript hash.
pub struct PublicKeyView {
    pub delta_after: Seq<u8>,
    pub s: Seq<u8>,
    pub s_delta: Seq<u8>,
    pub r_delta: Seq<u8>,
    pub transcript: Seq<u8>,
}

/// This allows others to verify that a participant contributed. The hash that
/// a contribution returns is the BLAKE2b hash of this object.
#[derive(Clone, Copy, Debug)]
pub struct PublicKey {
    /// The delta in G1 after the contribution, kept so that the chain can be
    /// checked without the parameters in between.
    pub delta_after: G1Point,
    /// Random element chosen by the contributor.
    pub s: G1Point,
    /// That element, taken to the contributor's secret delta.
    pub s_delta: G1Point,
    /// The element that the transcript hashes to, taken to the secret delta.
    pub r_delta: G2Point,
    /// Hash of the transcript, from which that element is derived.
    pub transcript: [u8; 64],
}

/// This needs to be destroyed by at least one participant for the final
/// parameters to be secure.
pub struct PrivateKey {
    pub delta: Scalar,
}

impl View for PublicKey {
    type V = PublicKeyView;

    open spec fn view(&self) -> PublicKeyView {
        PublicKeyView {
            delta_after: self.delta_after@,
            s: self.s@,
            s_delta: self.s_delta@,
            r_delta: self.r_delta@,
            transcript: self.transcript@,
        }
    }
}

/// The public keys of a chain as plain data.
pub open spec fn key_views(keys: Seq<PublicKey>) -> Seq<PublicKeyView> {
    Seq::new(keys.len(), |i: int| keys[i]@)
}

/// The length of a public key on the wire.
pub const PUBLIC_KEY_LEN: usize = 544;

/// A public key on the wire: the four elements uncompressed, then the hash.
pub open spec fn public_key_bytes(key: PublicKeyView) -> Seq<u8> {
    key.delta_after + key.s + key.s_delta + key.r_delta + key.transcript
}

/// The public keys of a chain on the wire, one after the other.
pub open spec fn chain_bytes(keys: Seq<PublicKeyView>) -> Seq<u8>
    decreases keys.len(),
{
    if keys.len() == 0 {
        Seq::empty()
    } else {
        chain_bytes(keys.drop_last()) + public_key_bytes(keys.last())
    }
}

/// The receipt of a contribution: the hash of its public key.
pub open spec fn receipt(key: PublicKeyView) -> Seq<u8> {
    blake2b_64(public_key_bytes(key))
}

/// A key that can be read back: every element is in its group and none is
/// the identity.
pub open spec fn public_key_wf(key: PublicKeyView) -> bool {
    &&& g1_member(key.delta_after) && !identity_flag(key.delta_after)
    &&& g1_member(key.s) && !identity_flag(key.s)
    &&& g1_member(key.s_delta) && !identity_flag(key.s_delta)
    &&& g2_member(key.r_delta) && !identity_flag(key.r_delta)
    &&& key.delta_after.len() == 96
    &&& key.s.len() == 96
    &&& key.s_delta.len() == 96
    &&& key.r_delta.len() == 192
    &&& key.transcript.len() == 64
}

/// What reading a public key at `pos` gives: the four elements, each checked
/// and none the identity, then 64 bytes; or the first error on the way.
pub open spec fn spec_read_public_key(bytes: Seq<u8>, pos: int) -> Result<
    PublicKeyView,
    ReadError,
> {
    match spec_read_g1(bytes, pos, true, true) {
        Err(e) => Err(e),
        Ok(delta_after) => match spec_read_g1(bytes, pos + 96, true, true) {
            Err(e) => Err(e),
            Ok(s) => match spec_read_g1(bytes, pos + 192, true, true) {
                Err(e) => Err(e),
                Ok(s_delta) => match spec_read_g2(bytes, pos + 288, true, true) {
                    Err(e) => Err(e),
                    Ok(r_delta) => if bytes.len() < pos + 544 {
                        Err(ReadError::UnexpectedEof)
                    } else {
                        Ok(
                            PublicKeyView {
                                delta_after,
                                s,
                                s_delta,
                                r_delta,
                                transcript: bytes.subrange(pos + 480, pos + 544),
                            },
                        )
                    },
                },
            },
        },
    }
}

impl PublicKey {
    /// Appends this key to `out` as it stands on the wire.
    pub fn write(&self, out: &mut Vec<u8>)
        ensures
            final(out)@ == old(out)@ + public_key_bytes(self@),
    {
        let delta_after = self.delta_after.to_uncompressed();
        let s = self.s.to_uncompressed();
        let s_delta = self.s_delta.to_uncompressed();
        let r_delta = self.r_delta.to_uncompressed();
        out.extend_from_slice(delta_after.as_slice());
        out.extend_from_slice(s.as_slice());
        out.extend_from_slice(s_delta.as_slice());
        out.extend_from_slice(r_delta.as_slice());
        out.extend_from_slice(self.transcript.as_slice());
        assert(out@ =~= old(out)@ + public_key_bytes(self@));
    }

    /// This key as it stands on the wire.
    pub fn to_bytes(&self) -> (r: Vec<u8>)
        ensures
            r@ == public_key_bytes(self@),
            r@.len() == PUBLIC_KEY_LEN,
    {
        let mut out: Vec<u8> = Vec::new();
        self.write(&mut out);
        proof {
            self.delta_after.lemma_len();
            self.s.lemma_len();
            self.s_delta.lemma_len();
            self.r_delta.lemma_len();
            assert(out@ =~= public_key_bytes(self@));
        }
        out
    }

    /// Reads the key at `pos`.
    pub fn read_at(bytes: &[u8], pos: usize) -> (r: Result<PublicKey, ReadError>)
        requires
            pos <= bytes@.len(),
        ensures
            match r {
                Ok(key) => spec_read_public_key(bytes@, pos as int) == Ok::<
                    PublicKeyView,
                    ReadError,
                >(key@) && pos + PUBLIC_KEY_LEN <= bytes@.len(),
                Err(e) => spec_read_public_key(bytes@, pos as int) == Err::<
                    PublicKeyView,
                    ReadError,
                >(e),
            },
    {
        assert(bytes.len() == bytes@.len());
        let delta_after = match read_g1(bytes, pos, true, true) {
            Ok(point) => point,
            Err(e) => { return Err(e); },
        };
        let s = match read_g1(bytes, pos + 96, true, true) {
            Ok(point) => point,
            Err(e) => { return Err(e); },
        };
        let s_delta = match read_g1(bytes, pos + 192, true, true) {
            Ok(point) => point,
            Err(e) => { return Err(e); },
        };
        let r_delta = match read_g2(bytes, pos + 288, true, true) {
            Ok(point) => point,
            Err(e) => { return Err(e); },
        };
        if bytes.len() - (pos + 480) < 64 {
            return Err(ReadError::UnexpectedEof);
        }
        let transcript: [u8; 64] = take(bytes, pos + 480);
        Ok(PublicKey { delta_after, s, s_delta, r_delta, transcript })
    }

    /// Reads a key from the start of `bytes`. What follows the key is ignored.
    pub fn read(bytes: &[u8]) -> (r: Result<PublicKey, ReadError>)
        ensures
            match r {
                Ok(key) => spec_read_public_key(bytes@, 0) == Ok::<PublicKeyView, ReadError>(
                    key@,
                ),
                Err(e) => spec_read_public_key(bytes@, 0) == Err::<PublicKeyView, ReadError>(e),
            },
    {
        PublicKey::read_at(bytes, 0)
    }

    /// The receipt of the contribution that this key belongs to.
    pub fn hash(&self) -> (r: [u8; 64])
        ensures
            r@ == receipt(self@),
    {
        let bytes = self.to_bytes();
        hash_bytes(bytes.as_slice())
    }
}

impl PartialEq for PublicKey {
    fn eq(&self, other: &PublicKey) -> (r: bool) {
        self.delta_after.same(&other.delta_after) && self.s.same(&other.s) && self.s_delta.same(
            &other.s_delta,
        ) && self.r_delta.same(&other.r_delta) && bytes_equal(
            self.transcript.as_slice(),
            other.transcript.as_slice(),
        )
    }
}

impl vstd::std_specs::cmp::PartialEqSpecImpl for PublicKey {
    open spec fn obeys_eq_spec() -> bool {
        true
    }

    open spec fn eq_spec(&self, other: &PublicKey) -> bool {
        self@ == other@
    }
}

/// The G2 element that a transcript hash stands for: the one sampled from a
/// ChaCha stream seeded with the first 32 bytes.
pub open spec fn spec_hash_to_g2(digest: Seq<u8>) -> Seq<u8> {
    g2_from_seed(digest.subrange(0, 32))
}

/// Hashes a digest of at least 32 bytes to an element of G2: one of the
/// subgroup, and not the identity.
pub fn hash_to_g2(digest: &[u8]) -> (r: G2Point)
    requires
        digest@.len() >= 32,
    ensures
        r@ == spec_hash_to_g2(digest@),
        g2_member(r@),
        !identity_flag(r@),
{
    let seed: [u8; 32] = take(digest, 0);
    G2Point::from_seed(&seed)
}

} // verus!
