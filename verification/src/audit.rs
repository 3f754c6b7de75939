//! Checking contributions: one step between two states, or a whole chain
//! against the parameters it started from.

use crate::assembly::KeypairAssembly;
use crate::bytes::bytes_equal;
use crate::curve::{
    g1_generator_encoding, g1_identity_encoding, g1_scale_windowed, g1_sum, g2_generator_encoding,
    pairings_agree, scalar_encoding, spec_pairings_agree, G1Point, G2Point, Scalar,
};
use crate::groth16::{g1_lists_equal, g2_lists_equal, Parameters, ParametersView};
use crate::hasher::HashWriter;
use crate::keys::{
    chain_bytes, hash_to_g2, key_views, receipt, spec_hash_to_g2, PublicKey, PublicKeyView,
};
use crate::mpc::{
    hash_transcript, lemma_chain_bytes_len, lemma_chain_bytes_push, spec_new, transcript_bytes,
    transcript_hash, MPCParameters, MpcParametersView,
};
use crate::wire::g1_views;
use vstd::prelude::*;

verus! {

/// Whether the second element of each pair is the same multiple of the
/// first: all four are elements of their subgroups, and the pairing of the
/// first with the other pair's second equals that of the second with the
/// other pair's first.
pub open spec fn spec_same_ratio(g1: (Seq<u8>, Seq<u8>), g2: (Seq<u8>, Seq<u8>)) -> bool {
    spec_pairings_agree(g1.0, g2.1, g1.1, g2.0)
}

/// The encodings of a list of scalars.
pub open spec fn scalar_views(scalars: Seq<Scalar>) -> Seq<Seq<u8>> {
    Seq::new(scalars.len(), |i: int| scalars[i]@)
}

/// Whether every weight of a list is a scalar in its canonical form.
pub open spec fn weights_encoded(weights: Seq<Seq<u8>>) -> bool {
    forall|i: int| 0 <= i < weights.len() ==> scalar_encoding(#[trigger] weights[i])
}

/// The 64-byte hashes of a list, as byte strings.
pub open spec fn hash_views(hashes: Seq<[u8; 64]>) -> Seq<Seq<u8>> {
    Seq::new(hashes.len(), |i: int| hashes[i]@)
}

/// The sum of the points, each times the weight at its place in windowed
/// form, added up from the identity in the order of the list.
pub open spec fn weighted_sum(points: Seq<Seq<u8>>, weights: Seq<Seq<u8>>) -> Seq<u8>
    decreases points.len(),
{
    if points.len() == 0 {
        g1_identity_encoding()
    } else {
        g1_sum(
            weighted_sum(points.drop_last(), weights),
            g1_scale_windowed(points.last(), weights[points.len() - 1]),
        )
    }
}

/// Whether every element of `after` is the element of `before` at its place
/// times before-delta over after-delta, as far as the weights can tell: the
/// weighted sums stand in the ratio of the two deltas in G2, reversed.
pub open spec fn batch_agrees(
    before: Seq<Seq<u8>>,
    after: Seq<Seq<u8>>,
    weights: Seq<Seq<u8>>,
    delta_g2_after: Seq<u8>,
    delta_g2_before: Seq<u8>,
) -> bool {
    spec_same_ratio(
        (weighted_sum(before, weights), weighted_sum(after, weights)),
        (delta_g2_after, delta_g2_before),
    )
}

/// Whether two parameter sets agree in all that no contribution may change:
/// the lengths of H and L, the queries A and B, and the verifying key but
/// for its deltas.
pub open spec fn frozen_fields_agree(a: ParametersView, b: ParametersView) -> bool {
    &&& a.h.len() == b.h.len()
    &&& a.l.len() == b.l.len()
    &&& a.a == b.a
    &&& a.b_g1 == b.b_g1
    &&& a.b_g2 == b.b_g2
    &&& a.vk.alpha_g1 == b.vk.alpha_g1
    &&& a.vk.beta_g1 == b.vk.beta_g1
    &&& a.vk.beta_g2 == b.vk.beta_g2
    &&& a.vk.gamma_g2 == b.vk.gamma_g2
    &&& a.vk.ic == b.vk.ic
}

/// Whether a public key is bound to the chain before it and proves knowledge
/// of the secret that took `delta_before` to its `delta_after`: its
/// transcript is the hash of the chain with its `s` and `s_delta`, and both
/// `s_delta` over `s` and `delta_after` over `delta_before` stand in the
/// ratio of `r_delta` over the element that the transcript hashes to.
pub open spec fn key_binds(
    cs_hash: Seq<u8>,
    earlier: Seq<PublicKeyView>,
    delta_before: Seq<u8>,
    key: PublicKeyView,
) -> bool {
    let h = transcript_hash(cs_hash, earlier, key.s, key.s_delta);
    let r = spec_hash_to_g2(h);
    &&& key.transcript == h
    &&& spec_same_ratio((key.s, key.s_delta), (r, key.r_delta))
    &&& spec_same_ratio((delta_before, key.delta_after), (r, key.r_delta))
}

/// Whether the deltas in G1 and G2 are the same multiple of the generators.
pub open spec fn deltas_agree(delta_g1: Seq<u8>, delta_g2: Seq<u8>) -> bool {
    spec_same_ratio((g1_generator_encoding(), delta_g1), (g2_generator_encoding(), delta_g2))
}

/// What the check of one contribution decides, for the weights drawn for H
/// and for L, one for each element.
pub open spec fn contribution_valid(
    before: MpcParametersView,
    after: MpcParametersView,
    rho_h: Seq<Seq<u8>>,
    rho_l: Seq<Seq<u8>>,
) -> bool {
    &&& rho_h.len() == before.params.h.len()
    &&& rho_l.len() == before.params.l.len()
    &&& after.contributions.len() == before.contributions.len() + 1
    &&& after.contributions.drop_last() == before.contributions
    &&& frozen_fields_agree(before.params, after.params)
    &&& before.cs_hash == after.cs_hash
    &&& key_binds(
        before.cs_hash,
        before.contributions,
        before.params.vk.delta_g1,
        after.contributions.last(),
    )
    &&& after.contributions.last().delta_after == after.params.vk.delta_g1
    &&& deltas_agree(after.params.vk.delta_g1, after.params.vk.delta_g2)
    &&& batch_agrees(
        before.params.h,
        after.params.h,
        rho_h,
        after.params.vk.delta_g2,
        before.params.vk.delta_g2,
    )
    &&& batch_agrees(
        before.params.l,
        after.params.l,
        rho_l,
        after.params.vk.delta_g2,
        before.params.vk.delta_g2,
    )
}

/// The delta in G1 before the contribution at place `i` of a chain: the
/// generator at the start, then what the key before left.
pub open spec fn delta_before(keys: Seq<PublicKeyView>, i: int) -> Seq<u8> {
    if i == 0 {
        g1_generator_encoding()
    } else {
        keys[i - 1].delta_after
    }
}

/// Whether the key at place `i` of a chain is bound to the keys before it.
pub open spec fn key_binds_at(cs_hash: Seq<u8>, keys: Seq<PublicKeyView>, i: int) -> bool {
    key_binds(cs_hash, keys.take(i), delta_before(keys, i), keys[i])
}

/// Whether every key of a chain is bound to the keys before it.
pub open spec fn chain_binds(cs_hash: Seq<u8>, keys: Seq<PublicKeyView>) -> bool {
    forall|i: int| 0 <= i < keys.len() ==> #[trigger] key_binds_at(cs_hash, keys, i)
}

/// The receipts of a chain, oldest first.
pub open spec fn receipts(keys: Seq<PublicKeyView>) -> Seq<Seq<u8>> {
    Seq::new(keys.len(), |i: int| receipt(keys[i]))
}

/// What the audit of a chain against its initial parameters decides, for the
/// weights drawn for H and for L, one for each element.
pub open spec fn chain_valid(
    initial: MpcParametersView,
    state: MpcParametersView,
    rho_h: Seq<Seq<u8>>,
    rho_l: Seq<Seq<u8>>,
) -> bool {
    &&& rho_h.len() == initial.params.h.len()
    &&& rho_l.len() == initial.params.l.len()
    &&& frozen_fields_agree(initial.params, state.params)
    &&& initial.cs_hash == state.cs_hash
    &&& chain_binds(initial.cs_hash, state.contributions)
    &&& delta_before(state.contributions, state.contributions.len() as int)
        == state.params.vk.delta_g1
    &&& deltas_agree(state.params.vk.delta_g1, state.params.vk.delta_g2)
    &&& batch_agrees(
        initial.params.h,
        state.params.h,
        rho_h,
        state.params.vk.delta_g2,
        g2_generator_encoding(),
    )
    &&& batch_agrees(
        initial.params.l,
        state.params.l,
        rho_l,
        state.params.vk.delta_g2,
        g2_generator_encoding(),
    )
}

/// Whether `ok` is what the audit of a chain decides for some weights, one
/// scalar for each element of H and of L.
pub open spec fn chain_valid_for_some_weights(
    initial: MpcParametersView,
    state: MpcParametersView,
    ok: bool,
) -> bool {
    exists|rho_h: Seq<Seq<u8>>, rho_l: Seq<Seq<u8>>|
        {
            &&& rho_h.len() == initial.params.h.len()
            &&& rho_l.len() == initial.params.l.len()
            &&& weights_encoded(rho_h)
            &&& weights_encoded(rho_l)
            &&& ok <==> #[trigger] chain_valid(initial, state, rho_h, rho_l)
        }
}

/// Whether `ok` is what the check of one contribution decides for some
/// weights, one scalar for each element of H and of L.
pub open spec fn contribution_valid_for_some_weights(
    before: MpcParametersView,
    after: MpcParametersView,
    ok: bool,
) -> bool {
    exists|rho_h: Seq<Seq<u8>>, rho_l: Seq<Seq<u8>>|
        {
            &&& rho_h.len() == before.params.h.len()
            &&& rho_l.len() == before.params.l.len()
            &&& weights_encoded(rho_h)
            &&& weights_encoded(rho_l)
            &&& ok <==> #[trigger] contribution_valid(before, after, rho_h, rho_l)
        }
}

/// Checks that the second element of each pair is the same multiple of the
/// first. Elements off their curve or outside their subgroup fail the check.
pub fn same_ratio(g1: (G1Point, G1Point), g2: (G2Point, G2Point)) -> (r: bool)
    ensures
        r == spec_same_ratio((g1.0@, g1.1@), (g2.0@, g2.1@)),
{
    pairings_agree(&g1.0, &g2.1, &g1.1, &g2.0)
}

/// Draws `count` scalars from the thread's own generator.
pub fn sample_weights(count: usize) -> (r: Vec<Scalar>)
    ensures
        r@.len() == count,
        weights_encoded(scalar_views(r@)),
{
    let mut weights: Vec<Scalar> = Vec::new();
    let mut i: usize = 0;
    while i < count
        invariant
            i <= count,
            weights@.len() == i,
            forall|j: int| 0 <= j < i ==> scalar_encoding(#[trigger] weights@[j]@),
        decreases count - i,
    {
        weights.push(Scalar::random_local());
        i = i + 1;
    }
    weights
}

/// Merges two lists of equal length into one pair, with the given weights:
/// the weighted sum of each list.
pub fn merge_pairs_with(v1: &Vec<G1Point>, v2: &Vec<G1Point>, weights: &Vec<Scalar>) -> (r: (
    G1Point,
    G1Point,
))
    requires
        v1@.len() == v2@.len(),
        weights@.len() == v1@.len(),
    ensures
        r.0@ == weighted_sum(g1_views(v1@), scalar_views(weights@)),
        r.1@ == weighted_sum(g1_views(v2@), scalar_views(weights@)),
{
    let mut s = G1Point::identity();
    let mut sx = G1Point::identity();
    let mut i: usize = 0;
    assert(g1_views(v1@).take(0) =~= Seq::<Seq<u8>>::empty());
    assert(g1_views(v2@).take(0) =~= Seq::<Seq<u8>>::empty());
    while i < v1.len()
        invariant
            i <= v1.len(),
            v1@.len() == v2@.len(),
            weights@.len() == v1@.len(),
            s@ == weighted_sum(g1_views(v1@).take(i as int), scalar_views(weights@)),
            sx@ == weighted_sum(g1_views(v2@).take(i as int), scalar_views(weights@)),
        decreases v1.len() - i,
    {
        let rho = &weights[i];
        let left = v1[i].scale_windowed(rho);
        let right = v2[i].scale_windowed(rho);
        proof {
            assert(g1_views(v1@).take(i + 1).drop_last() =~= g1_views(v1@).take(i as int));
            assert(g1_views(v2@).take(i + 1).drop_last() =~= g1_views(v2@).take(i as int));
        }
        s = s.plus(&left);
        sx = sx.plus(&right);
        i = i + 1;
    }
    assert(g1_views(v1@).take(v1.len() as int) =~= g1_views(v1@));
    assert(g1_views(v2@).take(v2.len() as int) =~= g1_views(v2@));
    (s, sx)
}

/// Merges two lists of equal length into one pair, with random weights, so
/// that one pairing check can stand for a check of every pair of elements.
pub fn merge_pairs(v1: &Vec<G1Point>, v2: &Vec<G1Point>) -> (r: (G1Point, G1Point))
    requires
        v1@.len() == v2@.len(),
    ensures
        exists|weights: Seq<Seq<u8>>|
            {
                &&& weights.len() == v1@.len()
                &&& weights_encoded(weights)
                &&& r.0@ == #[trigger] weighted_sum(g1_views(v1@), weights)
                &&& r.1@ == weighted_sum(g1_views(v2@), weights)
            },
{
    let weights = sample_weights(v1.len());
    let merged = merge_pairs_with(v1, v2, &weights);
    assert(scalar_views(weights@).len() == v1@.len());
    merged
}

/// Whether a parameter set agrees with another in all that is frozen.
pub fn frozen_fields_equal(a: &Parameters, b: &Parameters) -> (r: bool)
    ensures
        r == frozen_fields_agree(a@, b@),
{
    // H and L will change, but should have the same length.
    if a.h.len() != b.h.len() {
        return false;
    }
    if a.l.len() != b.l.len() {
        return false;
    }
    // A and B do not change at all.
    if !g1_lists_equal(&a.a, &b.a) {
        return false;
    }
    if !g1_lists_equal(&a.b_g1, &b.b_g1) {
        return false;
    }
    if !g2_lists_equal(&a.b_g2, &b.b_g2) {
        return false;
    }
    // Alpha, beta and gamma do not change.
    if !a.vk.alpha_g1.same(&b.vk.alpha_g1) {
        return false;
    }
    if !a.vk.beta_g1.same(&b.vk.beta_g1) {
        return false;
    }
    if !a.vk.beta_g2.same(&b.vk.beta_g2) {
        return false;
    }
    if !a.vk.gamma_g2.same(&b.vk.gamma_g2) {
        return false;
    }
    // IC should not change, as gamma does not change.
    if !g1_lists_equal(&a.vk.ic, &b.vk.ic) {
        return false;
    }
    true
}

/// Whether `key` is bound to the first `count` keys of `keys` and proves
/// knowledge of the secret behind the step from `delta_before`.
pub fn check_key(
    cs_hash: &[u8; 64],
    keys: &Vec<PublicKey>,
    count: usize,
    delta_before: &G1Point,
    key: &PublicKey,
) -> (r: bool)
    requires
        count <= keys@.len(),
        keys@.len() <= u32::MAX,
    ensures
        r == key_binds(cs_hash@, key_views(keys@.take(count as int)), delta_before@, key@),
{
    let h = hash_transcript(cs_hash, keys, count, &key.s, &key.s_delta);
    // The transcript must be consistent.
    if !bytes_equal(key.transcript.as_slice(), h.as_slice()) {
        return false;
    }
    let r = hash_to_g2(h.as_slice());
    // Check the signature of knowledge.
    if !same_ratio((key.s, key.s_delta), (r, key.r_delta)) {
        return false;
    }
    // Check the change from the old delta is consistent.
    if !same_ratio((*delta_before, key.delta_after), (r, key.r_delta)) {
        return false;
    }
    true
}

/// Verify a contribution, given the old parameters, the new parameters, and
/// the weights for the batched checks of H and of L. Returns the hash of the
/// contribution.
pub fn verify_contribution_with(
    before: &MPCParameters,
    after: &MPCParameters,
    rho_h: &Vec<Scalar>,
    rho_l: &Vec<Scalar>,
) -> (r: Result<[u8; 64], ()>)
    ensures
        r is Ok <==> contribution_valid(
            before@,
            after@,
            scalar_views(rho_h@),
            scalar_views(rho_l@),
        ),
        r matches Ok(hash) ==> hash@ == receipt(after@.contributions.last()),
{
    let before_keys = before.contributions();
    let after_keys = after.contributions();
    let before_params = before.get_params();
    let after_params = after.get_params();
    let n = before_keys.len();
    assert(scalar_views(rho_h@).len() == rho_h@.len());
    assert(scalar_views(rho_l@).len() == rho_l@.len());
    // There is one weight for each element of H and of L.
    if rho_h.len() != before_params.h.len() || rho_l.len() != before_params.l.len() {
        return Err(());
    }
    // Transformation involves a single new object.
    if after_keys.len() == 0 || after_keys.len() - 1 != n {
        return Err(());
    }
    // None of the previous transformations should change.
    let mut i: usize = 0;
    while i < n
        invariant
            i <= n,
            n == before_keys@.len(),
            after_keys@.len() == n + 1,
            forall|j: int| 0 <= j < i ==> before_keys@[j]@ == after_keys@[j]@,
            key_views(before_keys@) == before@.contributions,
            key_views(after_keys@) == after@.contributions,
        decreases n - i,
    {
        if before_keys[i] != after_keys[i] {
            assert(after@.contributions.drop_last()[i as int] == after_keys@[i as int]@);
            assert(before@.contributions[i as int] == before_keys@[i as int]@);
            return Err(());
        }
        i = i + 1;
    }
    assert(after@.contributions.drop_last() =~= before@.contributions);
    if !frozen_fields_equal(before_params, after_params) {
        return Err(());
    }
    // The hash of the constraint system should be the same.
    let cs_hash = before.cs_hash();
    let after_hash = after.cs_hash();
    if !bytes_equal(cs_hash.as_slice(), after_hash.as_slice()) {
        return Err(());
    }
    let pubkey = &after_keys[n];
    assert(pubkey@ == after@.contributions.last());
    assert(before_keys@.take(n as int) =~= before_keys@);
    if !check_key(&cs_hash, before_keys, n, &before_params.vk.delta_g1, pubkey) {
        return Err(());
    }
    // Current parameters should have consistent delta in G1.
    if !pubkey.delta_after.same(&after_params.vk.delta_g1) {
        return Err(());
    }
    // Current parameters should have consistent delta in G2.
    if !same_ratio(
        (G1Point::generator(), pubkey.delta_after),
        (G2Point::generator(), after_params.vk.delta_g2),
    ) {
        return Err(());
    }
    // H and L queries should be updated with delta^-1; the deltas are
    // reversed for the inverse.
    if !same_ratio(
        merge_pairs_with(&before_params.h, &after_params.h, rho_h),
        (after_params.vk.delta_g2, before_params.vk.delta_g2),
    ) {
        return Err(());
    }
    if !same_ratio(
        merge_pairs_with(&before_params.l, &after_params.l, rho_l),
        (after_params.vk.delta_g2, before_params.vk.delta_g2),
    ) {
        return Err(());
    }
    Ok(pubkey.hash())
}

/// Verify a contribution, given the old parameters and the new parameters.
/// Returns the hash of the contribution.
///
/// The checks of H and L are batched with weights drawn at random: the
/// result is that of [`verify_contribution_with`] for some weights.
pub fn verify_contribution(before: &MPCParameters, after: &MPCParameters) -> (r: Result<
    [u8; 64],
    (),
>)
    ensures
        contribution_valid_for_some_weights(before@, after@, r is Ok),
        r matches Ok(hash) ==> hash@ == receipt(after@.contributions.last()),
{
    let rho_h = sample_weights(before.get_params().h.len());
    let rho_l = sample_weights(before.get_params().l.len());
    let result = verify_contribution_with(before, after, &rho_h, &rho_l);
    proof {
        let weights_h = scalar_views(rho_h@);
        let weights_l = scalar_views(rho_l@);
        assert(weights_h.len() == before@.params.h.len());
        assert(weights_l.len() == before@.params.l.len());
        assert(result is Ok <==> contribution_valid(before@, after@, weights_h, weights_l));
    }
    result
}

/// Verify the chain of `state` against the parameters it started from, with
/// the given weights for the batched checks of H and of L. Returns the hashes
/// that the contributors obtained, oldest first.
pub fn verify_chain_with(
    state: &MPCParameters,
    initial: &MPCParameters,
    rho_h: &Vec<Scalar>,
    rho_l: &Vec<Scalar>,
) -> (r: Result<Vec<[u8; 64]>, ()>)
    ensures
        r is Ok <==> chain_valid(initial@, state@, scalar_views(rho_h@), scalar_views(rho_l@)),
        r matches Ok(hashes) ==> hash_views(hashes@) == receipts(state@.contributions)
            && hashes@.len() == state@.contributions.len(),
{
    let keys = state.contributions();
    let params = state.get_params();
    let initial_params = initial.get_params();
    assert(scalar_views(rho_h@).len() == rho_h@.len());
    assert(scalar_views(rho_l@).len() == rho_l@.len());
    // There is one weight for each element of H and of L.
    if rho_h.len() != initial_params.h.len() || rho_l.len() != initial_params.l.len() {
        return Err(());
    }
    if !frozen_fields_equal(initial_params, params) {
        return Err(());
    }
    // The hash of the constraint system should be the same.
    let cs_hash = initial.cs_hash();
    let state_hash = state.cs_hash();
    if !bytes_equal(cs_hash.as_slice(), state_hash.as_slice()) {
        return Err(());
    }
    let mut sink = HashWriter::new(None);
    sink.write(cs_hash.as_slice());
    let mut current_delta = G1Point::generator();
    let mut result: Vec<[u8; 64]> = Vec::new();
    let mut i: usize = 0;
    assert(key_views(keys@).take(0) =~= Seq::<PublicKeyView>::empty());
    assert(sink.hashed() =~= cs_hash@ + chain_bytes(key_views(keys@).take(0)));
    while i < keys.len()
        invariant
            i <= keys.len(),
            keys@.len() <= u32::MAX,
            key_views(keys@) == state@.contributions,
            initial@.cs_hash == cs_hash@,
            sink.hashed() == cs_hash@ + chain_bytes(key_views(keys@).take(i as int)),
            sink.forwarded() is None,
            current_delta@ == delta_before(key_views(keys@), i as int),
            forall|j: int| 0 <= j < i ==> #[trigger] key_binds_at(cs_hash@, key_views(keys@), j),
            result@.len() == i,
            forall|j: int| 0 <= j < i ==> (#[trigger] result@[j])@ == receipt(keys@[j]@),
        decreases keys.len() - i,
    {
        let pubkey = &keys[i];
        let ghost earlier = key_views(keys@).take(i as int);
        proof {
            assert(earlier =~= key_views(keys@.take(i as int)));
            lemma_chain_bytes_len(keys@.take(i as int));
            lemma_chain_bytes_push(earlier, pubkey@);
            assert(key_views(keys@).take(i + 1) =~= earlier.push(pubkey@));
            pubkey.s.lemma_len();
            pubkey.s_delta.lemma_len();
        }
        let mut our_sink = sink.fork();
        let s_bytes = pubkey.s.to_uncompressed();
        let s_delta_bytes = pubkey.s_delta.to_uncompressed();
        our_sink.write(s_bytes.as_slice());
        our_sink.write(s_delta_bytes.as_slice());
        assert(our_sink.hashed() =~= transcript_bytes(
            cs_hash@,
            earlier,
            pubkey@.s,
            pubkey@.s_delta,
        ));
        let key_bytes = pubkey.to_bytes();
        sink.write(key_bytes.as_slice());
        assert(sink.hashed() =~= cs_hash@ + chain_bytes(key_views(keys@).take(i + 1)));
        let h = our_sink.into_hash();
        // The transcript must be consistent.
        if !bytes_equal(pubkey.transcript.as_slice(), h.as_slice()) {
            assert(!key_binds_at(cs_hash@, key_views(keys@), i as int));
            return Err(());
        }
        let r = hash_to_g2(h.as_slice());
        // Check the signature of knowledge.
        if !same_ratio((pubkey.s, pubkey.s_delta), (r, pubkey.r_delta)) {
            assert(!key_binds_at(cs_hash@, key_views(keys@), i as int));
            return Err(());
        }
        // Check the change from the old delta is consistent.
        if !same_ratio((current_delta, pubkey.delta_after), (r, pubkey.r_delta)) {
            assert(!key_binds_at(cs_hash@, key_views(keys@), i as int));
            return Err(());
        }
        assert(key_binds_at(cs_hash@, key_views(keys@), i as int));
        current_delta = pubkey.delta_after;
        result.push(pubkey.hash());
        i = i + 1;
    }
    assert(chain_binds(cs_hash@, state@.contributions));
    // Current parameters should have consistent delta in G1.
    if !current_delta.same(&params.vk.delta_g1) {
        return Err(());
    }
    // Current parameters should have consistent delta in G2.
    if !same_ratio(
        (G1Point::generator(), current_delta),
        (G2Point::generator(), params.vk.delta_g2),
    ) {
        return Err(());
    }
    // H and L queries should be updated with delta^-1; the deltas are
    // reversed for the inverse.
    if !same_ratio(
        merge_pairs_with(&initial_params.h, &params.h, rho_h),
        (params.vk.delta_g2, G2Point::generator()),
    ) {
        return Err(());
    }
    if !same_ratio(
        merge_pairs_with(&initial_params.l, &params.l, rho_l),
        (params.vk.delta_g2, G2Point::generator()),
    ) {
        return Err(());
    }
    assert(hash_views(result@) =~= receipts(state@.contributions));
    Ok(result)
}

impl MPCParameters {
    /// Verify the correctness of the parameters, given the constraint system
    /// that the circuit left in `assembly` and the bytes of the powers-of-tau
    /// transcript for its domain. This will return all of the hashes that
    /// contributors obtained when they ran `contribute`, for ensuring that
    /// contributions exist in the final parameters.
    ///
    /// The checks of H and L are batched with weights drawn at random: the
    /// result is that of [`verify_chain_with`] for some weights.
    pub fn verify(&self, assembly: KeypairAssembly, phase1: &[u8]) -> (r: Result<
        Vec<[u8; 64]>,
        (),
    >)
        requires
            assembly.wf(),
        ensures
            spec_new(assembly@, phase1@) is Err ==> r is Err,
            spec_new(assembly@, phase1@) matches Ok(initial) ==> chain_valid_for_some_weights(
                initial,
                self@,
                r is Ok,
            ),
            r matches Ok(hashes) ==> hash_views(hashes@) == receipts(self@.contributions)
                && hashes@.len() == self@.contributions.len(),
    {
        let initial = match MPCParameters::new(assembly, phase1) {
            Ok(state) => state,
            Err(_) => { return Err(()); },
        };
        let rho_h = sample_weights(initial.get_params().h.len());
        let rho_l = sample_weights(initial.get_params().l.len());
        let result = verify_chain_with(self, &initial, &rho_h, &rho_l);
        proof {
            let weights_h = scalar_views(rho_h@);
            let weights_l = scalar_views(rho_l@);
            assert(weights_h.len() == initial@.params.h.len());
            assert(weights_l.len() == initial@.params.l.len());
            assert(result is Ok <==> chain_valid(initial@, self@, weights_h, weights_l));
        }
        result
    }
}

/// Whether a hash is among those of a list.
pub open spec fn spec_contains(contributions: Seq<[u8; 64]>, mine: Seq<u8>) -> bool {
    exists|i: int| 0 <= i < contributions.len() && (#[trigger] contributions[i])@ == mine
}

/// Checks if a contribution's hash is among those that a verification gave
/// back.
pub fn contains_contribution(contributions: &[[u8; 64]], my_contribution: &[u8; 64]) -> (r: bool)
    ensures
        r == spec_contains(contributions@, my_contribution@),
{
    let mut i: usize = 0;
    while i < contributions.len()
        invariant
            i <= contributions.len(),
            forall|j: int| 0 <= j < i ==> (#[trigger] contributions@[j])@ != my_contribution@,
        decreases contributions.len() - i,
    {
        if bytes_equal(contributions[i].as_slice(), my_contribution.as_slice()) {
            return true;
        }
        i = i + 1;
    }
    false
}

} // verus!
