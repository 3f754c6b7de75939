//! The parameters of the ceremony: Groth16 parameters, the hash of the
//! constraint system they were made for, and the chain of contributions.

use crate::assembly::{AssemblyView, KeypairAssembly};
use crate::bytes::{be_u32, be_u32_value, bytes_equal, take, u32_from_be, u32_to_be};
use crate::curve::{
    g1_member, g1_scale, g1_scale_windowed, g2_scale, identity_flag, scalar_encoding,
    scalar_inverse, scalar_zero_encoding, G1Point, Scalar,
};
use crate::groth16::{
    copy_g1_points, parameters_bytes, spec_read_parameters, Parameters, ParametersView,
    VerifyingKeyView,
};
use crate::hasher::{blake2b_64, hash_bytes, HashWriter};
use crate::keys::{
    chain_bytes, hash_to_g2, key_views, public_key_bytes, receipt, spec_hash_to_g2,
    spec_read_public_key, PrivateKey, PublicKey, PublicKeyView,
};
use crate::setup::{
    add_sentinels, domain, domain_exponent, initial_parameters, spec_initial_parameters,
    spec_read_phase1, two_to, with_sentinels, MAX_CONSTRAINTS, Phase1, SetupError,
};
use crate::wire::{g1_views, ReadError};
use vstd::prelude::*;

verus! {

/// The state of a ceremony as plain data.
pub struct MpcParametersView {
    pub params: ParametersView,
    pub cs_hash: Seq<u8>,
    pub contributions: Seq<PublicKeyView>,
}

/// MPC parameters are just like Groth16 parameters, except that they hold
/// the hash of the constraint system and the public keys of all who
/// contributed, so that the chain can be audited.
#[derive(Debug)]
pub struct MPCParameters {
    params: Parameters,
    cs_hash: [u8; 64],
    contributions: Vec<PublicKey>,
}

/// What a contributor's public key is hashed with: the hash of the constraint
/// system, the keys before it, and its own `s` and `s_delta`.
pub open spec fn transcript_bytes(
    cs_hash: Seq<u8>,
    earlier: Seq<PublicKeyView>,
    s: Seq<u8>,
    s_delta: Seq<u8>,
) -> Seq<u8> {
    cs_hash + chain_bytes(earlier) + s + s_delta
}

/// The transcript hash that binds a public key to the chain before it.
pub open spec fn transcript_hash(
    cs_hash: Seq<u8>,
    earlier: Seq<PublicKeyView>,
    s: Seq<u8>,
    s_delta: Seq<u8>,
) -> Seq<u8> {
    blake2b_64(transcript_bytes(cs_hash, earlier, s, s_delta))
}

/// Every element of `points` times `scalar`, each computed in windowed form.
pub open spec fn scale_all(points: Seq<Seq<u8>>, scalar: Seq<u8>) -> Seq<Seq<u8>> {
    Seq::new(points.len(), |i: int| g1_scale_windowed(points[i], scalar))
}

/// The public key of the contribution of `delta` to `current`, made with the
/// random element `s`.
pub open spec fn spec_keypair(current: MpcParametersView, delta: Seq<u8>, s: Seq<u8>)
    -> PublicKeyView {
    let s_delta = g1_scale(s, delta);
    let h = transcript_hash(current.cs_hash, current.contributions, s, s_delta);
    PublicKeyView {
        delta_after: g1_scale(current.params.vk.delta_g1, delta),
        s,
        s_delta,
        r_delta: g2_scale(spec_hash_to_g2(h), delta),
        transcript: h,
    }
}

/// The state after the contribution of `delta` to `current`: both deltas are
/// multiplied by it, H and L by its inverse, and the public key is appended.
/// Nothing else changes.
pub open spec fn spec_contribute(current: MpcParametersView, delta: Seq<u8>, s: Seq<u8>)
    -> MpcParametersView {
    let inverse = scalar_inverse(delta);
    MpcParametersView {
        params: ParametersView {
            vk: VerifyingKeyView {
                delta_g1: g1_scale(current.params.vk.delta_g1, delta),
                delta_g2: g2_scale(current.params.vk.delta_g2, delta),
                ..current.params.vk
            },
            h: scale_all(current.params.h, inverse),
            l: scale_all(current.params.l, inverse),
            ..current.params
        },
        cs_hash: current.cs_hash,
        contributions: current.contributions.push(spec_keypair(current, delta, s)),
    }
}

/// The number of constraints of a collector once every input has its
/// sentinel constraint.
pub open spec fn full_constraints(cs: AssemblyView) -> nat {
    cs.num_constraints + cs.num_inputs
}

/// The state that a ceremony starts from, for the constraint system `cs` and
/// the bytes of the powers-of-tau transcript: every input gets its sentinel
/// constraint; the transcript is read for the least power of two that is at
/// least the number of constraints, which may not exceed two to the 21; the
/// constraint system is evaluated at it; the hash of the constraint system is
/// the BLAKE2b hash of the parameters on the wire; no one has contributed.
pub open spec fn spec_new(cs: AssemblyView, phase1: Seq<u8>) -> Result<
    MpcParametersView,
    SetupError,
> {
    if full_constraints(cs) > MAX_CONSTRAINTS {
        Err(SetupError::DomainTooLarge)
    } else {
        match spec_read_phase1(phase1, two_to(domain_exponent(full_constraints(cs)))) {
            Err(e) => Err(SetupError::Transcript(e)),
            Ok(transcript) => match spec_initial_parameters(with_sentinels(cs), transcript) {
                Err(e) => Err(e),
                Ok(params) => Ok(
                    MpcParametersView {
                        params,
                        cs_hash: blake2b_64(parameters_bytes(params)),
                        contributions: Seq::empty(),
                    },
                ),
            },
        }
    }
}

/// The exponent `k` of the powers-of-tau transcript that the constraint
/// system needs: its file is named `phase1radix2m` followed by `k`.
pub fn phase1_exponent(assembly: &KeypairAssembly) -> (r: Result<u32, SetupError>)
    ensures
        match r {
            Ok(exp) => full_constraints(assembly@) <= MAX_CONSTRAINTS && exp == domain_exponent(
                full_constraints(assembly@),
            ),
            Err(e) => e == SetupError::DomainTooLarge && full_constraints(assembly@)
                > MAX_CONSTRAINTS,
        },
{
    let constraints = assembly.num_constraints();
    let inputs = assembly.num_inputs();
    if constraints > MAX_CONSTRAINTS || inputs > MAX_CONSTRAINTS {
        return Err(SetupError::DomainTooLarge);
    }
    match domain(constraints + inputs) {
        Ok((_, exp)) => Ok(exp),
        Err(e) => Err(e),
    }
}

/// Whether a contribution of `delta` to `current` can be made: the secret has
/// an inverse, and the chain has room for one more key under its 32-bit
/// count.
pub open spec fn contribution_possible(current: MpcParametersView, delta: Seq<u8>) -> bool {
    delta != scalar_zero_encoding() && current.contributions.len() < u32::MAX
}

/// Whether `after` and `result` are what the contribution of `delta` and `s`
/// to `before` gives: the state after it and the receipt of its key where it
/// can be made, and the state as it was and nothing where it cannot.
pub open spec fn contribution_outcome(
    before: MpcParametersView,
    delta: Seq<u8>,
    s: Seq<u8>,
    after: MpcParametersView,
    result: Option<[u8; 64]>,
) -> bool {
    if contribution_possible(before, delta) {
        &&& after == spec_contribute(before, delta, s)
        &&& result matches Some(hash)
        &&& hash@ == receipt(spec_keypair(before, delta, s))
    } else {
        after == before && result is None
    }
}

/// The ceremony state on the wire: the parameters, the hash of the constraint
/// system, the number of contributions, and their public keys.
pub open spec fn mpc_bytes(state: MpcParametersView) -> Seq<u8> {
    parameters_bytes(state.params) + state.cs_hash + be_u32(state.contributions.len() as u32)
        + chain_bytes(state.contributions)
}

/// What reading `count` public keys from `pos` on gives: the keys, or the
/// error of the first that fails.
pub open spec fn spec_read_chain(bytes: Seq<u8>, pos: int, count: nat) -> Result<
    Seq<PublicKeyView>,
    ReadError,
>
    decreases count,
{
    if count == 0 {
        Ok(Seq::empty())
    } else {
        match spec_read_chain(bytes, pos, (count - 1) as nat) {
            Err(e) => Err(e),
            Ok(before) => match spec_read_public_key(bytes, pos + 544 * (count - 1)) {
                Err(e) => Err(e),
                Ok(key) => Ok(before.push(key)),
            },
        }
    }
}

/// What reading a ceremony state from the start of `bytes` gives.
pub open spec fn spec_read_mpc(bytes: Seq<u8>, checked: bool) -> Result<
    MpcParametersView,
    ReadError,
> {
    match spec_read_parameters(bytes, 0, checked) {
        Err(e) => Err(e),
        Ok((params, at_hash)) => if bytes.len() < at_hash + 68 {
            Err(ReadError::UnexpectedEof)
        } else {
            let cs_hash = bytes.subrange(at_hash, at_hash + 64);
            let count = be_u32_value(bytes.subrange(at_hash + 64, at_hash + 68));
            match spec_read_chain(bytes, at_hash + 68, count as nat) {
                Err(e) => Err(e),
                Ok(contributions) => Ok(MpcParametersView { params, cs_hash, contributions }),
            }
        },
    }
}

/// The bytes that one element takes in the list that ends stage `stage` of a
/// serialized state: the lists of G1 elements IC, H, L, A and B, that of G2
/// elements, and the chain of public keys.
pub open spec fn frame_width(stage: nat) -> nat {
    if stage < 5 {
        96
    } else if stage == 5 {
        192
    } else {
        544
    }
}

/// The bytes between the end of the list of stage `stage` and the end of the
/// next count: the count alone, or the hash of the constraint system and the
/// count of the chain, or nothing after the chain.
pub open spec fn frame_tail(stage: nat) -> nat {
    if stage < 5 {
        4
    } else if stage == 5 {
        68
    } else {
        0
    }
}

/// Where a serialized state ends, as far as `bytes` tells, given that the
/// count of the list of stage `stage` ends at `end`: at `end` if the bytes do
/// not reach it or no list is left, else where the later lists say.
pub open spec fn frame_from(bytes: Seq<u8>, end: nat, stage: nat) -> nat
    decreases 7 - stage,
{
    if bytes.len() < end || stage >= 7 {
        end
    } else {
        let count = be_u32_value(bytes.subrange(end - 4, end as int));
        frame_from(
            bytes,
            end + frame_width(stage) * (count as nat) + frame_tail(stage),
            stage + 1,
        )
    }
}

/// The number of bytes that a reader must have before it can tell more of a
/// serialized state that begins with `bytes`: the place where the next count
/// ends that `bytes` does not hold yet, or the end of the state once every
/// count is known. The six single elements of the verifying key and the count
/// of IC take 868 bytes.
pub open spec fn spec_frame_len(bytes: Seq<u8>) -> nat {
    frame_from(bytes, 868, 0)
}

/// Once reading the first `failed` keys fails, reading more fails alike.
pub proof fn lemma_read_chain_fails(bytes: Seq<u8>, pos: int, failed: nat, count: nat)
    requires
        failed <= count,
        spec_read_chain(bytes, pos, failed) is Err,
    ensures
        spec_read_chain(bytes, pos, count) == spec_read_chain(bytes, pos, failed),
    decreases count,
{
    if failed < count {
        lemma_read_chain_fails(bytes, pos, failed, (count - 1) as nat);
    }
}

/// The chain of `n + 1` keys on the wire is that of the first `n`, then the
/// last key.
pub proof fn lemma_chain_bytes_push(keys: Seq<PublicKeyView>, key: PublicKeyView)
    ensures
        chain_bytes(keys.push(key)) == chain_bytes(keys) + public_key_bytes(key),
{
    assert(keys.push(key).drop_last() =~= keys);
}

/// A chain takes 544 bytes on the wire for each of its keys.
pub proof fn lemma_chain_bytes_len(keys: Seq<PublicKey>)
    ensures
        chain_bytes(key_views(keys)).len() == 544 * keys.len(),
    decreases keys.len(),
{
    if keys.len() > 0 {
        lemma_chain_bytes_len(keys.drop_last());
        assert(key_views(keys).drop_last() =~= key_views(keys.drop_last()));
        let last = keys.last();
        last.delta_after.lemma_len();
        last.s.lemma_len();
        last.s_delta.lemma_len();
        last.r_delta.lemma_len();
    }
}

/// A copy of a chain of public keys.
pub fn copy_chain(keys: &Vec<PublicKey>) -> (r: Vec<PublicKey>)
    ensures
        r@ == keys@,
{
    let mut out: Vec<PublicKey> = Vec::new();
    let mut i: usize = 0;
    while i < keys.len()
        invariant
            i <= keys.len(),
            out@ == keys@.take(i as int),
        decreases keys.len() - i,
    {
        out.push(keys[i]);
        assert(out@ =~= keys@.take(i + 1));
        i = i + 1;
    }
    assert(keys@.take(keys.len() as int) =~= keys@);
    out
}

/// Multiplies every element of `bases` by `coeff`, in windowed form.
pub fn batch_exp(bases: &mut Vec<G1Point>, coeff: &Scalar)
    ensures
        g1_views(final(bases)@) == scale_all(g1_views(old(bases)@), coeff@),
{
    let mut i: usize = 0;
    while i < bases.len()
        invariant
            i <= bases.len(),
            bases.len() == old(bases).len(),
            forall|j: int|
                0 <= j < i ==> bases@[j]@ == g1_scale_windowed(old(bases)@[j]@, coeff@),
            forall|j: int| i <= j < bases.len() ==> bases@[j] == old(bases)@[j],
        decreases bases.len() - i,
    {
        let scaled = bases[i].scale_windowed(coeff);
        bases[i] = scaled;
        i = i + 1;
    }
    assert(g1_views(bases@) =~= scale_all(g1_views(old(bases)@), coeff@));
}

/// A writer that has hashed `cs_hash` and the first `count` keys of `keys`.
pub fn hash_chain(cs_hash: &[u8; 64], keys: &Vec<PublicKey>, count: usize) -> (r: HashWriter)
    requires
        count <= keys@.len(),
        keys@.len() <= u32::MAX,
    ensures
        r.hashed() == cs_hash@ + chain_bytes(key_views(keys@.take(count as int))),
        r.forwarded() is None,
{
    let mut sink = HashWriter::new(None);
    sink.write(cs_hash.as_slice());
    let mut i: usize = 0;
    assert(key_views(keys@.take(0)) =~= Seq::<PublicKeyView>::empty());
    assert(sink.hashed() =~= cs_hash@ + chain_bytes(key_views(keys@.take(0))));
    while i < count
        invariant
            i <= count,
            count <= keys@.len(),
            keys@.len() <= u32::MAX,
            sink.hashed() == cs_hash@ + chain_bytes(key_views(keys@.take(i as int))),
            sink.forwarded() is None,
        decreases count - i,
    {
        let bytes = keys[i].to_bytes();
        proof {
            lemma_chain_bytes_len(keys@.take(i as int));
            lemma_chain_bytes_push(key_views(keys@.take(i as int)), keys@[i as int]@);
            assert(key_views(keys@.take(i + 1)) =~= key_views(keys@.take(i as int)).push(
                keys@[i as int]@,
            ));
        }
        sink.write(bytes.as_slice());
        assert(sink.hashed() =~= cs_hash@ + chain_bytes(key_views(keys@.take(i + 1))));
        i = i + 1;
    }
    sink
}

/// The transcript hash of a key with `s` and `s_delta` that follows the first
/// `count` keys of `keys`.
pub fn hash_transcript(
    cs_hash: &[u8; 64],
    keys: &Vec<PublicKey>,
    count: usize,
    s: &G1Point,
    s_delta: &G1Point,
) -> (r: [u8; 64])
    requires
        count <= keys@.len(),
        keys@.len() <= u32::MAX,
    ensures
        r@ == transcript_hash(cs_hash@, key_views(keys@.take(count as int)), s@, s_delta@),
{
    let mut sink = hash_chain(cs_hash, keys, count);
    let s_bytes = s.to_uncompressed();
    let s_delta_bytes = s_delta.to_uncompressed();
    proof {
        lemma_chain_bytes_len(keys@.take(count as int));
        s.lemma_len();
        s_delta.lemma_len();
    }
    sink.write(s_bytes.as_slice());
    sink.write(s_delta_bytes.as_slice());
    assert(sink.hashed() =~= transcript_bytes(
        cs_hash@,
        key_views(keys@.take(count as int)),
        s@,
        s_delta@,
    ));
    sink.into_hash()
}

/// Compute a keypair, given the current parameters, the secret `delta` and
/// the random element `s`. Keypairs cannot be reused for multiple
/// contributions or contributions in different parameters.
pub fn keypair(delta: Scalar, s: G1Point, current: &MPCParameters) -> (r: (PublicKey, PrivateKey))
    ensures
        r.0@ == spec_keypair(current@, delta@, s@),
        r.1.delta@ == delta@,
{
    proof {
        use_type_invariant(current);
    }
    let s_delta = s.scale(&delta);
    let n = current.contributions.len();
    assert(current.contributions@.take(n as int) =~= current.contributions@);
    let transcript = hash_transcript(&current.cs_hash, &current.contributions, n, &s, &s_delta);
    let r = hash_to_g2(transcript.as_slice());
    let r_delta = r.scale(&delta);
    let delta_after = current.params.vk.delta_g1.scale(&delta);
    (PublicKey { delta_after, s, s_delta, r_delta, transcript }, PrivateKey { delta })
}

impl View for MPCParameters {
    type V = MpcParametersView;

    closed spec fn view(&self) -> MpcParametersView {
        MpcParametersView {
            params: self.params@,
            cs_hash: self.cs_hash@,
            contributions: key_views(self.contributions@),
        }
    }
}

impl MPCParameters {
    #[verifier::type_invariant]
    spec fn inv(self) -> bool {
        self.contributions@.len() <= u32::MAX
    }

    /// Create new Groth16 parameters for the constraint system that a circuit
    /// left in `assembly`, from the bytes of the powers-of-tau transcript for
    /// its domain (see [`phase1_exponent`]). The resulting parameters are
    /// unsafe to use until there are contributions (see `contribute`).
    pub fn new(assembly: KeypairAssembly, phase1: &[u8]) -> (r: Result<MPCParameters, SetupError>)
        requires
            assembly.wf(),
        ensures
            match r {
                Ok(state) => spec_new(assembly@, phase1@) == Ok::<MpcParametersView, SetupError>(
                    state@,
                ),
                Err(e) => spec_new(assembly@, phase1@) == Err::<MpcParametersView, SetupError>(e),
            },
    {
        let mut assembly = assembly;
        let constraints = assembly.num_constraints();
        let inputs = assembly.num_inputs();
        if constraints > MAX_CONSTRAINTS || inputs > MAX_CONSTRAINTS {
            return Err(SetupError::DomainTooLarge);
        }
        // Compute the size of our evaluation domain.
        let (m, _) = match domain(constraints + inputs) {
            Ok(size) => size,
            Err(e) => { return Err(e); },
        };
        // Input constraints to ensure full density of the IC query.
        add_sentinels(&mut assembly);
        let transcript = match Phase1::read(phase1, m) {
            Ok(transcript) => transcript,
            Err(e) => { return Err(SetupError::Transcript(e)); },
        };
        let params = match initial_parameters(&assembly, transcript) {
            Ok(params) => params,
            Err(e) => { return Err(e); },
        };
        let mut bytes: Vec<u8> = Vec::new();
        params.write(&mut bytes);
        assert(bytes@ =~= parameters_bytes(params@));
        let cs_hash = hash_bytes(bytes.as_slice());
        let contributions: Vec<PublicKey> = Vec::new();
        assert(key_views(contributions@) =~= Seq::<PublicKeyView>::empty());
        Ok(MPCParameters { params, cs_hash, contributions })
    }

    /// Puts a ceremony state together from its parts, if the chain is short
    /// enough for its 32-bit count.
    pub fn from_parts(params: Parameters, cs_hash: [u8; 64], contributions: Vec<PublicKey>) -> (r:
        Option<MPCParameters>)
        ensures
            r is Some <==> contributions@.len() <= u32::MAX,
            r matches Some(state) ==> state@ == (MpcParametersView {
                params: params@,
                cs_hash: cs_hash@,
                contributions: key_views(contributions@),
            }),
    {
        if contributions.len() > 0xffff_ffff {
            None
        } else {
            Some(MPCParameters { params, cs_hash, contributions })
        }
    }

    /// Get the underlying Groth16 `Parameters`.
    pub fn get_params(&self) -> (r: &Parameters)
        ensures
            r@ == self@.params,
    {
        &self.params
    }

    /// The hash of the constraint system that the parameters were made for.
    pub fn cs_hash(&self) -> (r: [u8; 64])
        ensures
            r@ == self@.cs_hash,
    {
        self.cs_hash
    }

    /// The public keys of the contributions, oldest first.
    pub fn contributions(&self) -> (r: &Vec<PublicKey>)
        ensures
            key_views(r@) == self@.contributions,
            r@.len() <= u32::MAX,
    {
        proof {
            use_type_invariant(self);
        }
        &self.contributions
    }

    /// Contributes the secret `delta` to the parameters, with the random
    /// element `s` for the proof of knowledge. Returns the hash that is bound
    /// to the contribution, by which its author can find it in the output of
    /// `verify`.
    ///
    /// Nothing is contributed, and `None` is returned, when the secret is
    /// zero, which has no inverse, or the chain is full.
    pub fn contribute_with(&mut self, delta: Scalar, s: G1Point) -> (r: Option<[u8; 64]>)
        ensures
            contribution_outcome(old(self)@, delta@, s@, final(self)@, r),
    {
        proof {
            use_type_invariant(&*self);
        }
        if delta.is_zero() || self.contributions.len() >= 0xffff_ffff {
            return None;
        }
        let (pubkey, privkey) = keypair(delta, s, self);
        let delta_inv = privkey.delta.invert().unwrap();
        let mut l = copy_g1_points(&self.params.l);
        let mut h = copy_g1_points(&self.params.h);
        batch_exp(&mut l, &delta_inv);
        batch_exp(&mut h, &delta_inv);
        self.params.l = l;
        self.params.h = h;
        self.params.vk.delta_g1 = self.params.vk.delta_g1.scale(&privkey.delta);
        self.params.vk.delta_g2 = self.params.vk.delta_g2.scale(&privkey.delta);
        let mut chain = copy_chain(&self.contributions);
        chain.push(pubkey);
        self.contributions = chain;
        proof {
            assert(key_views(self.contributions@) =~= key_views(old(self).contributions@).push(
                pubkey@,
            ));
            assert(self@.params.vk =~= spec_contribute(old(self)@, delta@, s@).params.vk);
            assert(self@.params =~= spec_contribute(old(self)@, delta@, s@).params);
            assert(self@ =~= spec_contribute(old(self)@, delta@, s@));
        }
        Some(pubkey.hash())
    }

    /// Contributes some randomness to the parameters. Only one contributor
    /// needs to be honest for the parameters to be secure.
    ///
    /// Draws a secret and an element of G1 from `rng` and contributes them:
    /// the outcome is that of [`MPCParameters::contribute_with`] for what was
    /// drawn, a scalar and an element of the subgroup other than the
    /// identity. The hash that is returned is bound to the contribution.
    pub fn contribute(&mut self, rng: &mut rand_chacha::ChaCha20Rng) -> (r: Option<[u8; 64]>)
        ensures
            exists|delta: Seq<u8>, s: Seq<u8>|
                {
                    &&& scalar_encoding(delta)
                    &&& g1_member(s) && !identity_flag(s)
                    &&& #[trigger] contribution_outcome(old(self)@, delta, s, final(self)@, r)
                },
    {
        let delta = Scalar::random(rng);
        let s = G1Point::random(rng);
        let result = self.contribute_with(delta, s);
        assert(contribution_outcome(old(self)@, delta@, s@, self@, result));
        result
    }

    /// Serialize these parameters. The serialized parameters begin with the
    /// Groth16 parameters, as bellman reads them.
    pub fn write(&self, out: &mut Vec<u8>)
        ensures
            final(out)@ == old(out)@ + mpc_bytes(self@),
    {
        proof {
            use_type_invariant(self);
        }
        self.params.write(out);
        out.extend_from_slice(self.cs_hash.as_slice());
        let count = u32_to_be(self.contributions.len() as u32);
        out.extend_from_slice(count.as_slice());
        let ghost head = out@;
        let mut i: usize = 0;
        assert(key_views(self.contributions@.take(0)) =~= Seq::<PublicKeyView>::empty());
        assert(out@ =~= head + chain_bytes(key_views(self.contributions@.take(0))));
        while i < self.contributions.len()
            invariant
                i <= self.contributions.len(),
                out@ == head + chain_bytes(key_views(self.contributions@.take(i as int))),
            decreases self.contributions.len() - i,
        {
            proof {
                lemma_chain_bytes_push(
                    key_views(self.contributions@.take(i as int)),
                    self.contributions@[i as int]@,
                );
                assert(key_views(self.contributions@.take(i + 1)) =~= key_views(
                    self.contributions@.take(i as int),
                ).push(self.contributions@[i as int]@));
            }
            self.contributions[i].write(out);
            assert(out@ =~= head + chain_bytes(key_views(self.contributions@.take(i + 1))));
            i = i + 1;
        }
        assert(self.contributions@.take(self.contributions.len() as int) =~= self.contributions@);
        assert(out@ =~= old(out)@ + mpc_bytes(self@));
    }

    /// The number of bytes that a reader must have taken from a stream before
    /// it can tell more of the state that begins with `bytes`. A reader that
    /// takes bytes until it holds this many, or the stream ends, holds all
    /// that `read` looks at and nothing that follows the state.
    pub fn frame_len(bytes: &[u8]) -> (r: u64)
        ensures
            r == spec_frame_len(bytes@),
    {
        assert(bytes.len() == bytes@.len());
        let mut end: u64 = 868;
        let mut stage: u64 = 0;
        while stage < 7 && end <= bytes.len() as u64
            invariant
                stage <= 7,
                868 <= end <= 868 + stage * 0x300_0000_0000,
                bytes.len() == bytes@.len(),
                frame_from(bytes@, end as nat, stage as nat) == spec_frame_len(bytes@),
            decreases 7 - stage,
        {
            let at = end as usize;
            let count = u32_from_be(vstd::slice::slice_subrange(bytes, at - 4, at)) as u64;
            let width: u64 = if stage < 5 {
                96
            } else if stage == 5 {
                192
            } else {
                544
            };
            let tail: u64 = if stage < 5 {
                4
            } else if stage == 5 {
                68
            } else {
                0
            };
            assert(width * count <= 544 * 0xffff_ffff) by (nonlinear_arith)
                requires
                    width <= 544,
                    count <= 0xffff_ffff,
            ;
            end = end + width * count + tail;
            stage = stage + 1;
        }
        end
    }

    /// Deserialize these parameters from the start of `bytes`; what follows
    /// them is ignored. If `checked` is false, the queries are not tested for
    /// being on the curve and in the subgroup.
    pub fn read(bytes: &[u8], checked: bool) -> (r: Result<MPCParameters, ReadError>)
        ensures
            match r {
                Ok(state) => spec_read_mpc(bytes@, checked) == Ok::<MpcParametersView, ReadError>(
                    state@,
                ),
                Err(e) => spec_read_mpc(bytes@, checked) == Err::<MpcParametersView, ReadError>(
                    e,
                ),
            },
    {
        assert(bytes.len() == bytes@.len());
        let (params, at_hash) = match Parameters::read_at(bytes, 0, checked) {
            Ok(part) => part,
            Err(e) => { return Err(e); },
        };
        if bytes.len() - at_hash < 68 {
            return Err(ReadError::UnexpectedEof);
        }
        let cs_hash: [u8; 64] = take(bytes, at_hash);
        let prefix = vstd::slice::slice_subrange(bytes, at_hash + 64, at_hash + 68);
        let count = u32_from_be(prefix) as usize;
        let contributions = match read_chain(bytes, at_hash + 68, count) {
            Ok(keys) => keys,
            Err(e) => { return Err(e); },
        };
        Ok(MPCParameters { params, cs_hash, contributions })
    }
}

impl Clone for MPCParameters {
    fn clone(&self) -> (r: MPCParameters)
        ensures
            r@ == self@,
    {
        proof {
            use_type_invariant(self);
        }
        MPCParameters {
            params: self.params.clone(),
            cs_hash: self.cs_hash,
            contributions: copy_chain(&self.contributions),
        }
    }
}

impl PartialEq for MPCParameters {
    fn eq(&self, other: &MPCParameters) -> (r: bool) {
        self.params == other.params && bytes_equal(
            self.cs_hash.as_slice(),
            other.cs_hash.as_slice(),
        ) && chains_equal(&self.contributions, &other.contributions)
    }
}

impl vstd::std_specs::cmp::PartialEqSpecImpl for MPCParameters {
    open spec fn obeys_eq_spec() -> bool {
        true
    }

    open spec fn eq_spec(&self, other: &MPCParameters) -> bool {
        self@ == other@
    }
}

/// Reads `count` public keys from `pos` on.
pub fn read_chain(bytes: &[u8], pos: usize, count: usize) -> (r: Result<Vec<PublicKey>, ReadError>)
    requires
        pos <= bytes@.len(),
    ensures
        match r {
            Ok(keys) => spec_read_chain(bytes@, pos as int, count as nat) == Ok::<
                Seq<PublicKeyView>,
                ReadError,
            >(key_views(keys@)) && keys@.len() == count,
            Err(e) => spec_read_chain(bytes@, pos as int, count as nat) == Err::<
                Seq<PublicKeyView>,
                ReadError,
            >(e),
        },
{
    assert(bytes.len() == bytes@.len());
    let mut keys: Vec<PublicKey> = Vec::new();
    let mut at: usize = pos;
    let mut i: usize = 0;
    assert(key_views(keys@) =~= Seq::<PublicKeyView>::empty());
    while i < count
        invariant
            i <= count,
            at == pos + 544 * i,
            at <= bytes.len(),
            keys@.len() == i,
            spec_read_chain(bytes@, pos as int, i as nat) == Ok::<Seq<PublicKeyView>, ReadError>(
                key_views(keys@),
            ),
        decreases count - i,
    {
        match PublicKey::read_at(bytes, at) {
            Err(e) => {
                proof {
                    lemma_read_chain_fails(bytes@, pos as int, (i + 1) as nat, count as nat);
                }
                return Err(e);
            },
            Ok(key) => {
                proof {
                    assert(key_views(keys@.push(key)) =~= key_views(keys@).push(key@));
                }
                keys.push(key);
                at = at + 544;
                i = i + 1;
            },
        }
    }
    Ok(keys)
}

/// Whether two chains hold the same public keys in the same order.
pub fn chains_equal(a: &Vec<PublicKey>, b: &Vec<PublicKey>) -> (r: bool)
    ensures
        r == (key_views(a@) == key_views(b@)),
{
    if a.len() != b.len() {
        assert(key_views(a@).len() != key_views(b@).len());
        return false;
    }
    let mut i: usize = 0;
    while i < a.len()
        invariant
            i <= a.len(),
            a.len() == b.len(),
            forall|j: int| 0 <= j < i ==> a@[j]@ == b@[j]@,
        decreases a.len() - i,
    {
        if a[i] != b[i] {
            assert(key_views(a@)[i as int] != key_views(b@)[i as int]);
            return false;
        }
        i = i + 1;
    }
    assert(key_views(a@) =~= key_views(b@));
    true
}

} // verus!
