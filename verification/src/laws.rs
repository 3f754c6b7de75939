//! What holds of the ceremony as a whole: reading gives back what was
//! written, contributions leave the frozen fields alone, and a chain that
//! passes the audit carries the proofs and receipts of its contributors.

use crate::assembly::{assembly_wf, AssemblyView};
use crate::audit::{
    batch_agrees, chain_binds, chain_valid, contribution_valid, delta_before, deltas_agree,
    frozen_fields_agree, hash_views, key_binds_at, receipts, spec_contains, spec_same_ratio,
};
use crate::bytes::{be_u32, be_u32_value, lemma_be_u32_round_trip};
use crate::curve::{
    g1_encoding, g1_generator_encoding, g1_member, g2_encoding, g2_generator_encoding, g2_member,
    identity_flag, pairing_value,
};
use crate::groth16::{
    parameters_bytes, spec_read_g1_counted, spec_read_g2_counted, spec_read_parameters,
    spec_read_vk, vk_bytes, vk_head_bytes, ParametersView, VerifyingKeyView,
};
use crate::keys::{
    chain_bytes, public_key_bytes, public_key_wf, receipt, spec_hash_to_g2, spec_read_public_key,
    PublicKeyView,
};
use crate::mpc::{
    frame_from, full_constraints, mpc_bytes, spec_contribute, spec_frame_len, spec_keypair,
    spec_new, spec_read_chain, spec_read_mpc, transcript_hash, MpcParametersView,
};
use crate::setup::{domain_exponent, lemma_two_to_grows, some_identity, two_to};
use crate::wire::{
    concat, list_bytes, spec_read_g1, spec_read_g1_list, spec_read_g2, spec_read_g2_list, ReadError,
};
use vstd::prelude::*;

verus! {

// ---------------------------------------------------------------------------
// Reading gives back what was written
// ---------------------------------------------------------------------------

/// Whether `bytes` holds `part` at `pos`.
#[verifier::opaque]
pub open spec fn holds_at(bytes: Seq<u8>, pos: int, part: Seq<u8>) -> bool {
    &&& 0 <= pos
    &&& pos + part.len() <= bytes.len()
    &&& bytes.subrange(pos, pos + part.len()) == part
}

/// Where a byte string holds two parts in a row, it holds each in its place.
pub proof fn lemma_split(bytes: Seq<u8>, pos: int, a: Seq<u8>, b: Seq<u8>)
    requires
        holds_at(bytes, pos, a + b),
    ensures
        holds_at(bytes, pos, a),
        holds_at(bytes, pos + a.len(), b),
{
    reveal(holds_at);
    let whole = bytes.subrange(pos, pos + (a + b).len());
    assert(bytes.subrange(pos, pos + a.len()) =~= whole.subrange(0, a.len() as int));
    assert((a + b).subrange(0, a.len() as int) =~= a);
    assert(bytes.subrange(pos + a.len(), pos + a.len() + b.len()) =~= whole.subrange(
        a.len() as int,
        (a + b).len() as int,
    ));
    assert((a + b).subrange(a.len() as int, (a + b).len() as int) =~= b);
}

/// A G1 element that the decoder asked for accepts.
pub open spec fn g1_readable(point: Seq<u8>, checked: bool) -> bool {
    &&& point.len() == 96
    &&& if checked {
        g1_member(point)
    } else {
        g1_encoding(point)
    }
}

/// A G2 element that the decoder asked for accepts.
pub open spec fn g2_readable(point: Seq<u8>, checked: bool) -> bool {
    &&& point.len() == 192
    &&& if checked {
        g2_member(point)
    } else {
        g2_encoding(point)
    }
}

/// A list of G1 elements that can be read back: each is accepted and none is
/// the identity, and the count fits its 32 bits.
pub open spec fn g1_list_readable(points: Seq<Seq<u8>>, checked: bool) -> bool {
    &&& points.len() <= u32::MAX
    &&& forall|i: int|
        0 <= i < points.len() ==> g1_readable(#[trigger] points[i], checked) && !identity_flag(
            points[i],
        )
}

/// A list of G2 elements that can be read back: each is accepted and none is
/// the identity, and the count fits its 32 bits.
pub open spec fn g2_list_readable(points: Seq<Seq<u8>>, checked: bool) -> bool {
    &&& points.len() <= u32::MAX
    &&& forall|i: int|
        0 <= i < points.len() ==> g2_readable(#[trigger] points[i], checked) && !identity_flag(
            points[i],
        )
}

/// A verifying key that can be read back: its six single elements are in
/// their groups, and its list is readable with checks.
pub open spec fn vk_readable(vk: VerifyingKeyView) -> bool {
    &&& g1_readable(vk.alpha_g1, true)
    &&& g1_readable(vk.beta_g1, true)
    &&& g2_readable(vk.beta_g2, true)
    &&& g2_readable(vk.gamma_g2, true)
    &&& g1_readable(vk.delta_g1, true)
    &&& g2_readable(vk.delta_g2, true)
    &&& g1_list_readable(vk.ic, true)
}

/// Parameters that can be read back, with or without checks of the queries.
pub open spec fn parameters_readable(params: ParametersView, checked: bool) -> bool {
    &&& vk_readable(params.vk)
    &&& g1_list_readable(params.h, checked)
    &&& g1_list_readable(params.l, checked)
    &&& g1_list_readable(params.a, checked)
    &&& g1_list_readable(params.b_g1, checked)
    &&& g2_list_readable(params.b_g2, checked)
}

/// A ceremony state that can be read back.
pub open spec fn mpc_readable(state: MpcParametersView, checked: bool) -> bool {
    &&& parameters_readable(state.params, checked)
    &&& state.cs_hash.len() == 64
    &&& state.contributions.len() <= u32::MAX
    &&& forall|i: int|
        0 <= i < state.contributions.len() ==> public_key_wf(#[trigger] state.contributions[i])
}

/// Reading a G1 element where it stands gives it back.
pub proof fn lemma_read_g1_at(
    bytes: Seq<u8>,
    pos: int,
    point: Seq<u8>,
    checked: bool,
    reject_identity: bool,
)
    requires
        holds_at(bytes, pos, point),
        g1_readable(point, checked),
        reject_identity ==> !identity_flag(point),
    ensures
        spec_read_g1(bytes, pos, checked, reject_identity) == Ok::<Seq<u8>, ReadError>(point),
{
    reveal(holds_at);
}

/// Reading a G2 element where it stands gives it back.
pub proof fn lemma_read_g2_at(
    bytes: Seq<u8>,
    pos: int,
    point: Seq<u8>,
    checked: bool,
    reject_identity: bool,
)
    requires
        holds_at(bytes, pos, point),
        g2_readable(point, checked),
        reject_identity ==> !identity_flag(point),
    ensures
        spec_read_g2(bytes, pos, checked, reject_identity) == Ok::<Seq<u8>, ReadError>(point),
{
    reveal(holds_at);
}

/// A run of elements of one length takes that length times their number.
pub proof fn lemma_concat_len(parts: Seq<Seq<u8>>, each: nat)
    requires
        forall|i: int| 0 <= i < parts.len() ==> (#[trigger] parts[i]).len() == each,
    ensures
        concat(parts).len() == each * parts.len(),
    decreases parts.len(),
{
    if parts.len() > 0 {
        lemma_concat_len(parts.drop_last(), each);
        assert(each * parts.len() == each * (parts.len() - 1) + each) by (nonlinear_arith);
    }
}

/// Reading a run of G1 elements where it stands gives them back.
pub proof fn lemma_read_g1_list_at(bytes: Seq<u8>, pos: int, points: Seq<Seq<u8>>, checked: bool)
    requires
        holds_at(bytes, pos, concat(points)),
        g1_list_readable(points, checked),
    ensures
        spec_read_g1_list(bytes, pos, points.len(), checked) == Ok::<Seq<Seq<u8>>, ReadError>(
            points,
        ),
        concat(points).len() == 96 * points.len(),
    decreases points.len(),
{
    lemma_concat_len(points, 96);
    if points.len() > 0 {
        let front = points.drop_last();
        lemma_concat_len(front, 96);
        lemma_split(bytes, pos, concat(front), points.last());
        lemma_read_g1_list_at(bytes, pos, front, checked);
        lemma_read_g1_at(bytes, pos + 96 * (points.len() - 1), points.last(), checked, true);
        assert(front.push(points.last()) =~= points);
    } else {
        assert(points =~= Seq::<Seq<u8>>::empty());
    }
}

/// Reading a run of G2 elements where it stands gives them back.
pub proof fn lemma_read_g2_list_at(bytes: Seq<u8>, pos: int, points: Seq<Seq<u8>>, checked: bool)
    requires
        holds_at(bytes, pos, concat(points)),
        g2_list_readable(points, checked),
    ensures
        spec_read_g2_list(bytes, pos, points.len(), checked) == Ok::<Seq<Seq<u8>>, ReadError>(
            points,
        ),
        concat(points).len() == 192 * points.len(),
    decreases points.len(),
{
    lemma_concat_len(points, 192);
    if points.len() > 0 {
        let front = points.drop_last();
        lemma_concat_len(front, 192);
        lemma_split(bytes, pos, concat(front), points.last());
        lemma_read_g2_list_at(bytes, pos, front, checked);
        lemma_read_g2_at(bytes, pos + 192 * (points.len() - 1), points.last(), checked, true);
        assert(front.push(points.last()) =~= points);
    } else {
        assert(points =~= Seq::<Seq<u8>>::empty());
    }
}

/// Reading a counted list of G1 elements where it stands gives it back, and
/// ends right after it.
pub proof fn lemma_read_g1_counted_at(
    bytes: Seq<u8>,
    pos: int,
    points: Seq<Seq<u8>>,
    checked: bool,
)
    requires
        holds_at(bytes, pos, list_bytes(points)),
        g1_list_readable(points, checked),
    ensures
        spec_read_g1_counted(bytes, pos, checked) == Ok::<(Seq<Seq<u8>>, int), ReadError>(
            (points, pos + list_bytes(points).len()),
        ),
        list_bytes(points).len() == 4 + 96 * points.len(),
{
    reveal(holds_at);
    let count = points.len() as u32;
    lemma_be_u32_round_trip(count);
    lemma_split(bytes, pos, be_u32(count), concat(points));
    lemma_read_g1_list_at(bytes, pos + 4, points, checked);
}

/// Reading a counted list of G2 elements where it stands gives it back, and
/// ends right after it.
pub proof fn lemma_read_g2_counted_at(
    bytes: Seq<u8>,
    pos: int,
    points: Seq<Seq<u8>>,
    checked: bool,
)
    requires
        holds_at(bytes, pos, list_bytes(points)),
        g2_list_readable(points, checked),
    ensures
        spec_read_g2_counted(bytes, pos, checked) == Ok::<(Seq<Seq<u8>>, int), ReadError>(
            (points, pos + list_bytes(points).len()),
        ),
        list_bytes(points).len() == 4 + 192 * points.len(),
{
    reveal(holds_at);
    let count = points.len() as u32;
    lemma_be_u32_round_trip(count);
    lemma_split(bytes, pos, be_u32(count), concat(points));
    lemma_read_g2_list_at(bytes, pos + 4, points, checked);
}

/// Reading a verifying key where it stands gives it back, and ends right
/// after it.
pub proof fn lemma_read_vk_at(bytes: Seq<u8>, pos: int, vk: VerifyingKeyView)
    requires
        holds_at(bytes, pos, vk_bytes(vk)),
        vk_readable(vk),
    ensures
        spec_read_vk(bytes, pos) == Ok::<(VerifyingKeyView, int), ReadError>(
            (vk, pos + vk_bytes(vk).len()),
        ),
{
    let head = vk_head_bytes(vk);
    lemma_split(bytes, pos, head, list_bytes(vk.ic));
    let to_delta_g1 = vk.alpha_g1 + vk.beta_g1 + vk.beta_g2 + vk.gamma_g2 + vk.delta_g1;
    lemma_split(bytes, pos, to_delta_g1, vk.delta_g2);
    let to_gamma = vk.alpha_g1 + vk.beta_g1 + vk.beta_g2 + vk.gamma_g2;
    lemma_split(bytes, pos, to_gamma, vk.delta_g1);
    let to_beta_g2 = vk.alpha_g1 + vk.beta_g1 + vk.beta_g2;
    lemma_split(bytes, pos, to_beta_g2, vk.gamma_g2);
    let to_beta_g1 = vk.alpha_g1 + vk.beta_g1;
    lemma_split(bytes, pos, to_beta_g1, vk.beta_g2);
    lemma_split(bytes, pos, vk.alpha_g1, vk.beta_g1);
    lemma_read_g1_at(bytes, pos, vk.alpha_g1, true, false);
    lemma_read_g1_at(bytes, pos + 96, vk.beta_g1, true, false);
    lemma_read_g2_at(bytes, pos + 192, vk.beta_g2, true, false);
    lemma_read_g2_at(bytes, pos + 384, vk.gamma_g2, true, false);
    lemma_read_g1_at(bytes, pos + 576, vk.delta_g1, true, false);
    lemma_read_g2_at(bytes, pos + 672, vk.delta_g2, true, false);
    lemma_read_g1_counted_at(bytes, pos + 864, vk.ic, true);
}

/// Where a byte string holds parameters, it holds each of their six parts in
/// its place.
pub proof fn lemma_parameters_layout(bytes: Seq<u8>, pos: int, params: ParametersView)
    requires
        holds_at(bytes, pos, parameters_bytes(params)),
    ensures
        ({
            let at_h = pos + vk_bytes(params.vk).len();
            let at_l = at_h + list_bytes(params.h).len();
            let at_a = at_l + list_bytes(params.l).len();
            let at_b1 = at_a + list_bytes(params.a).len();
            let at_b2 = at_b1 + list_bytes(params.b_g1).len();
            &&& holds_at(bytes, pos, vk_bytes(params.vk))
            &&& holds_at(bytes, at_h, list_bytes(params.h))
            &&& holds_at(bytes, at_l, list_bytes(params.l))
            &&& holds_at(bytes, at_a, list_bytes(params.a))
            &&& holds_at(bytes, at_b1, list_bytes(params.b_g1))
            &&& holds_at(bytes, at_b2, list_bytes(params.b_g2))
            &&& parameters_bytes(params).len() == at_b2 + list_bytes(params.b_g2).len() - pos
        }),
{
    let vk = vk_bytes(params.vk);
    let h = list_bytes(params.h);
    let l = list_bytes(params.l);
    let a = list_bytes(params.a);
    let b_g1 = list_bytes(params.b_g1);
    let b_g2 = list_bytes(params.b_g2);
    lemma_split(bytes, pos, vk + h + l + a + b_g1, b_g2);
    lemma_split(bytes, pos, vk + h + l + a, b_g1);
    lemma_split(bytes, pos, vk + h + l, a);
    lemma_split(bytes, pos, vk + h, l);
    lemma_split(bytes, pos, vk, h);
}

/// Reading parameters where they stand gives them back, and ends right after
/// them.
pub proof fn lemma_read_parameters_at(
    bytes: Seq<u8>,
    pos: int,
    params: ParametersView,
    checked: bool,
)
    requires
        holds_at(bytes, pos, parameters_bytes(params)),
        parameters_readable(params, checked),
    ensures
        spec_read_parameters(bytes, pos, checked) == Ok::<(ParametersView, int), ReadError>(
            (params, pos + parameters_bytes(params).len()),
        ),
{
    let at_h = pos + vk_bytes(params.vk).len();
    let at_l = at_h + list_bytes(params.h).len();
    let at_a = at_l + list_bytes(params.l).len();
    let at_b1 = at_a + list_bytes(params.a).len();
    let at_b2 = at_b1 + list_bytes(params.b_g1).len();
    let end = at_b2 + list_bytes(params.b_g2).len();
    lemma_parameters_layout(bytes, pos, params);
    lemma_read_vk_at(bytes, pos, params.vk);
    lemma_read_g1_counted_at(bytes, at_h, params.h, checked);
    lemma_read_g1_counted_at(bytes, at_l, params.l, checked);
    lemma_read_g1_counted_at(bytes, at_a, params.a, checked);
    lemma_read_g1_counted_at(bytes, at_b1, params.b_g1, checked);
    lemma_read_g2_counted_at(bytes, at_b2, params.b_g2, checked);
    assert(spec_read_vk(bytes, pos) == Ok::<(VerifyingKeyView, int), ReadError>(
        (params.vk, at_h),
    ));
    assert(spec_read_g1_counted(bytes, at_h, checked) == Ok::<(Seq<Seq<u8>>, int), ReadError>(
        (params.h, at_l),
    ));
    assert(spec_read_g1_counted(bytes, at_l, checked) == Ok::<(Seq<Seq<u8>>, int), ReadError>(
        (params.l, at_a),
    ));
    assert(spec_read_g1_counted(bytes, at_a, checked) == Ok::<(Seq<Seq<u8>>, int), ReadError>(
        (params.a, at_b1),
    ));
    assert(spec_read_g1_counted(bytes, at_b1, checked) == Ok::<(Seq<Seq<u8>>, int), ReadError>(
        (params.b_g1, at_b2),
    ));
    assert(spec_read_g2_counted(bytes, at_b2, checked) == Ok::<(Seq<Seq<u8>>, int), ReadError>(
        (params.b_g2, end),
    ));
}

/// Reading a public key where it stands gives it back.
pub proof fn lemma_read_public_key_at(bytes: Seq<u8>, pos: int, key: PublicKeyView)
    requires
        holds_at(bytes, pos, public_key_bytes(key)),
        public_key_wf(key),
    ensures
        spec_read_public_key(bytes, pos) == Ok::<PublicKeyView, ReadError>(key),
        public_key_bytes(key).len() == 544,
{
    reveal(holds_at);
    lemma_split(bytes, pos, key.delta_after + key.s + key.s_delta + key.r_delta, key.transcript);
    lemma_split(bytes, pos, key.delta_after + key.s + key.s_delta, key.r_delta);
    lemma_split(bytes, pos, key.delta_after + key.s, key.s_delta);
    lemma_split(bytes, pos, key.delta_after, key.s);
}

/// Reading a chain of public keys where it stands gives it back.
pub proof fn lemma_read_chain_at(bytes: Seq<u8>, pos: int, keys: Seq<PublicKeyView>)
    requires
        holds_at(bytes, pos, chain_bytes(keys)),
        forall|i: int| 0 <= i < keys.len() ==> public_key_wf(#[trigger] keys[i]),
    ensures
        spec_read_chain(bytes, pos, keys.len()) == Ok::<Seq<PublicKeyView>, ReadError>(keys),
        chain_bytes(keys).len() == 544 * keys.len(),
    decreases keys.len(),
{
    if keys.len() > 0 {
        let front = keys.drop_last();
        lemma_chain_len(front);
        lemma_chain_len(keys);
        lemma_split(bytes, pos, chain_bytes(front), public_key_bytes(keys.last()));
        lemma_read_chain_at(bytes, pos, front);
        lemma_read_public_key_at(bytes, pos + 544 * (keys.len() - 1), keys.last());
        assert(front.push(keys.last()) =~= keys);
    } else {
        assert(keys =~= Seq::<PublicKeyView>::empty());
    }
}

/// A chain of well-formed keys takes 544 bytes for each.
pub proof fn lemma_chain_len(keys: Seq<PublicKeyView>)
    requires
        forall|i: int| 0 <= i < keys.len() ==> public_key_wf(#[trigger] keys[i]),
    ensures
        chain_bytes(keys).len() == 544 * keys.len(),
    decreases keys.len(),
{
    if keys.len() > 0 {
        lemma_chain_len(keys.drop_last());
        assert(public_key_wf(keys.last()));
    }
}

/// Serializing a public key and reading it back gives the same key, whatever
/// follows it.
pub proof fn law_public_key_round_trip(key: PublicKeyView, rest: Seq<u8>)
    requires
        public_key_wf(key),
    ensures
        spec_read_public_key(public_key_bytes(key) + rest, 0) == Ok::<PublicKeyView, ReadError>(
            key,
        ),
{
    reveal(holds_at);
    let bytes = public_key_bytes(key) + rest;
    assert(bytes.subrange(0, public_key_bytes(key).len() as int) =~= public_key_bytes(key));
    lemma_read_public_key_at(bytes, 0, key);
}

/// Serializing Groth16 parameters and reading them back gives the same
/// parameters, whatever follows them.
pub proof fn law_parameters_round_trip(params: ParametersView, checked: bool, rest: Seq<u8>)
    requires
        parameters_readable(params, checked),
    ensures
        spec_read_parameters(parameters_bytes(params) + rest, 0, checked) == Ok::<
            (ParametersView, int),
            ReadError,
        >((params, parameters_bytes(params).len() as int)),
{
    reveal(holds_at);
    let bytes = parameters_bytes(params) + rest;
    assert(bytes.subrange(0, parameters_bytes(params).len() as int) =~= parameters_bytes(params));
    lemma_read_parameters_at(bytes, 0, params, checked);
}

/// Where a byte string begins with a ceremony state, it holds each of its
/// four parts in its place.
pub proof fn lemma_mpc_layout(state: MpcParametersView, rest: Seq<u8>)
    ensures
        ({
            let bytes = mpc_bytes(state) + rest;
            let at_hash = parameters_bytes(state.params).len() as int;
            let count = be_u32(state.contributions.len() as u32);
            &&& holds_at(bytes, 0, parameters_bytes(state.params))
            &&& holds_at(bytes, at_hash, state.cs_hash)
            &&& holds_at(bytes, at_hash + state.cs_hash.len(), count)
            &&& holds_at(
                bytes,
                at_hash + state.cs_hash.len() + count.len(),
                chain_bytes(state.contributions),
            )
        }),
{
    let bytes = mpc_bytes(state) + rest;
    let params = parameters_bytes(state.params);
    let count = be_u32(state.contributions.len() as u32);
    let chain = chain_bytes(state.contributions);
    assert(holds_at(bytes, 0, mpc_bytes(state))) by {
        reveal(holds_at);
        assert(bytes.subrange(0, mpc_bytes(state).len() as int) =~= mpc_bytes(state));
    }
    lemma_split(bytes, 0, params + state.cs_hash + count, chain);
    lemma_split(bytes, 0, params + state.cs_hash, count);
    lemma_split(bytes, 0, params, state.cs_hash);
}

/// Serializing a ceremony state and reading it back gives the same state,
/// field by field, whatever follows it; so writing what was read gives the
/// same bytes again.
pub proof fn law_mpc_round_trip(state: MpcParametersView, checked: bool, rest: Seq<u8>)
    requires
        mpc_readable(state, checked),
    ensures
        spec_read_mpc(mpc_bytes(state) + rest, checked) == Ok::<MpcParametersView, ReadError>(
            state,
        ),
{
    let bytes = mpc_bytes(state) + rest;
    let at_hash = parameters_bytes(state.params).len() as int;
    let count = state.contributions.len() as u32;
    lemma_mpc_layout(state, rest);
    lemma_be_u32_round_trip(count);
    assert(spec_read_parameters(bytes, 0, checked) == Ok::<(ParametersView, int), ReadError>(
        (state.params, at_hash),
    )) by {
        lemma_read_parameters_at(bytes, 0, state.params, checked);
    }
    assert(bytes.len() >= at_hash + 68 && bytes.subrange(at_hash, at_hash + 64) == state.cs_hash
        && bytes.subrange(at_hash + 64, at_hash + 68) == be_u32(count)) by {
        reveal(holds_at);
    }
    assert(spec_read_chain(bytes, at_hash + 68, count as nat) == Ok::<
        Seq<PublicKeyView>,
        ReadError,
    >(state.contributions)) by {
        lemma_read_chain_at(bytes, at_hash + 68, state.contributions);
    }
}

/// Where a byte string holds a counted list of elements of one length, the
/// count can be read at its start, and the list ends where the count says.
pub proof fn lemma_count_at(bytes: Seq<u8>, pos: int, points: Seq<Seq<u8>>, each: nat)
    requires
        holds_at(bytes, pos, list_bytes(points)),
        points.len() <= u32::MAX,
        forall|i: int| 0 <= i < points.len() ==> (#[trigger] points[i]).len() == each,
    ensures
        0 <= pos,
        pos + 4 + each * points.len() <= bytes.len(),
        be_u32_value(bytes.subrange(pos, pos + 4)) == points.len(),
        list_bytes(points).len() == 4 + each * points.len(),
{
    let count = points.len() as u32;
    lemma_be_u32_round_trip(count);
    lemma_concat_len(points, each);
    lemma_split(bytes, pos, be_u32(count), concat(points));
    reveal(holds_at);
}

/// The frame of a byte string that begins with serialized parameters: the
/// counts of the six lists can all be read, and what is left to tell is where
/// the count of the chain ends, 68 bytes after the parameters.
pub proof fn lemma_frame_of_parameters(bytes: Seq<u8>, params: ParametersView, checked: bool)
    requires
        holds_at(bytes, 0, parameters_bytes(params)),
        parameters_readable(params, checked),
    ensures
        spec_frame_len(bytes) == frame_from(bytes, parameters_bytes(params).len() + 68, 6),
{
    let at_h = vk_bytes(params.vk).len() as int;
    let at_l = at_h + list_bytes(params.h).len();
    let at_a = at_l + list_bytes(params.l).len();
    let at_b1 = at_a + list_bytes(params.a).len();
    let at_b2 = at_b1 + list_bytes(params.b_g1).len();
    let end = at_b2 + list_bytes(params.b_g2).len();
    lemma_parameters_layout(bytes, 0, params);
    assert(vk_head_bytes(params.vk).len() == 864);
    lemma_split(bytes, 0, vk_head_bytes(params.vk), list_bytes(params.vk.ic));
    lemma_count_at(bytes, 864, params.vk.ic, 96);
    lemma_count_at(bytes, at_h, params.h, 96);
    lemma_count_at(bytes, at_l, params.l, 96);
    lemma_count_at(bytes, at_a, params.a, 96);
    lemma_count_at(bytes, at_b1, params.b_g1, 96);
    lemma_count_at(bytes, at_b2, params.b_g2, 192);
    assert(at_h == 868 + 96 * params.vk.ic.len());
    assert(end == parameters_bytes(params).len());
    assert(frame_from(bytes, 868, 0) == frame_from(bytes, (at_h + 4) as nat, 1));
    assert(frame_from(bytes, (at_h + 4) as nat, 1) == frame_from(bytes, (at_l + 4) as nat, 2));
    assert(frame_from(bytes, (at_l + 4) as nat, 2) == frame_from(bytes, (at_a + 4) as nat, 3));
    assert(frame_from(bytes, (at_a + 4) as nat, 3) == frame_from(bytes, (at_b1 + 4) as nat, 4));
    assert(frame_from(bytes, (at_b1 + 4) as nat, 4) == frame_from(bytes, (at_b2 + 4) as nat, 5));
    assert(frame_from(bytes, (at_b2 + 4) as nat, 5) == frame_from(bytes, (end + 68) as nat, 6));
}

/// A reader that takes what `frame_len` asks for stops where the state ends:
/// for a serialized state that can be read back, whatever follows it, the
/// frame is as long as the state.
pub proof fn law_frame_len(state: MpcParametersView, checked: bool, rest: Seq<u8>)
    requires
        mpc_readable(state, checked),
    ensures
        spec_frame_len(mpc_bytes(state) + rest) == mpc_bytes(state).len(),
{
    let bytes = mpc_bytes(state) + rest;
    let at_hash = parameters_bytes(state.params).len() as int;
    let count = state.contributions.len() as u32;
    let end = at_hash + 68 + 544 * state.contributions.len();
    lemma_mpc_layout(state, rest);
    lemma_frame_of_parameters(bytes, state.params, checked);
    lemma_be_u32_round_trip(count);
    lemma_chain_len(state.contributions);
    assert(bytes.len() >= end && bytes.subrange(at_hash + 64, at_hash + 68) == be_u32(count)
        && mpc_bytes(state).len() == end) by {
        reveal(holds_at);
    }
    assert(frame_from(bytes, (at_hash + 68) as nat, 6) == frame_from(bytes, end as nat, 7));
}

// ---------------------------------------------------------------------------
// The state that a ceremony starts from
// ---------------------------------------------------------------------------

/// A run of G1 elements that was read has the length that was asked for.
pub proof fn lemma_read_g1_list_len(bytes: Seq<u8>, pos: int, count: nat, checked: bool)
    ensures
        spec_read_g1_list(bytes, pos, count, checked) matches Ok(points) ==> points.len() == count,
    decreases count,
{
    if count > 0 {
        lemma_read_g1_list_len(bytes, pos, (count - 1) as nat, checked);
    }
}

/// The shape of the initial state: no one has contributed, gamma and both
/// deltas are the generators, H holds one element less than the domain has
/// points, and IC and L hold one element for every input and for every
/// auxiliary variable.
pub proof fn law_initial_state(cs: AssemblyView, phase1: Seq<u8>)
    requires
        assembly_wf(cs),
    ensures
        spec_new(cs, phase1) matches Ok(state) ==> {
            &&& state.contributions.len() == 0
            &&& state.params.vk.gamma_g2 == g2_generator_encoding()
            &&& state.params.vk.delta_g1 == g1_generator_encoding()
            &&& state.params.vk.delta_g2 == g2_generator_encoding()
            &&& state.params.h.len() == two_to(domain_exponent(full_constraints(cs))) - 1
            &&& state.params.vk.ic.len() == cs.num_inputs
            &&& state.params.l.len() == cs.num_aux
            &&& !some_identity(state.params.l)
        },
{
    let m = two_to(domain_exponent(full_constraints(cs)));
    lemma_two_to_grows(0, domain_exponent(full_constraints(cs)));
    lemma_read_g1_list_len(phase1, (384 + 480 * m) as int, (m - 1) as nat, false);
}

// ---------------------------------------------------------------------------
// Contributions
// ---------------------------------------------------------------------------

/// The state after a run of contributions, each with its secret and its
/// random element.
pub open spec fn contribute_all(initial: MpcParametersView, secrets: Seq<(Seq<u8>, Seq<u8>)>)
    -> MpcParametersView
    decreases secrets.len(),
{
    if secrets.len() == 0 {
        initial
    } else {
        spec_contribute(
            contribute_all(initial, secrets.drop_last()),
            secrets.last().0,
            secrets.last().1,
        )
    }
}

/// The frozen fields are identical across all states derived from the same
/// initial state: alpha, beta, gamma, IC, A, B and the hash of the constraint
/// system never change, and H and L keep their lengths.
pub proof fn law_frozen_fields(initial: MpcParametersView, secrets: Seq<(Seq<u8>, Seq<u8>)>)
    ensures
        frozen_fields_agree(initial.params, contribute_all(initial, secrets).params),
        contribute_all(initial, secrets).cs_hash == initial.cs_hash,
    decreases secrets.len(),
{
    if secrets.len() > 0 {
        law_frozen_fields(initial, secrets.drop_last());
    }
}

/// Contributions are append-only: a run of contributions leaves the keys of
/// the chain before it in place and adds one key for each.
pub proof fn law_chain_grows(initial: MpcParametersView, secrets: Seq<(Seq<u8>, Seq<u8>)>)
    ensures
        contribute_all(initial, secrets).contributions.len() == initial.contributions.len()
            + secrets.len(),
        contribute_all(initial, secrets).contributions.take(initial.contributions.len() as int)
            == initial.contributions,
    decreases secrets.len(),
{
    let n = initial.contributions.len() as int;
    if secrets.len() > 0 {
        law_chain_grows(initial, secrets.drop_last());
        let before = contribute_all(initial, secrets.drop_last()).contributions;
        let after = contribute_all(initial, secrets).contributions;
        assert(after.take(n) =~= before.take(n));
    } else {
        assert(initial.contributions.take(n) =~= initial.contributions);
    }
}

/// The receipts of a chain after one more contribution are those before it,
/// then the receipt of the new key: what an audit lists at place `i` is what
/// the contribution at place `i` returned.
pub proof fn law_receipts_extend(current: MpcParametersView, delta: Seq<u8>, s: Seq<u8>)
    ensures
        receipts(spec_contribute(current, delta, s).contributions) == receipts(
            current.contributions,
        ).push(receipt(spec_keypair(current, delta, s))),
{
    assert(receipts(spec_contribute(current, delta, s).contributions) =~= receipts(
        current.contributions,
    ).push(receipt(spec_keypair(current, delta, s))));
}

/// Between a state and the state after a contribution to it, every check of
/// one contribution holds by construction but the five that compare
/// pairings: with one weight for each element of H and of L, the check passes
/// exactly if those do.
pub proof fn law_contribution_checks(
    current: MpcParametersView,
    delta: Seq<u8>,
    s: Seq<u8>,
    rho_h: Seq<Seq<u8>>,
    rho_l: Seq<Seq<u8>>,
)
    requires
        rho_h.len() == current.params.h.len(),
        rho_l.len() == current.params.l.len(),
    ensures
        ({
            let next = spec_contribute(current, delta, s);
            let key = spec_keypair(current, delta, s);
            let r = spec_hash_to_g2(key.transcript);
            contribution_valid(current, next, rho_h, rho_l) <==> {
                &&& spec_same_ratio((s, key.s_delta), (r, key.r_delta))
                &&& spec_same_ratio((current.params.vk.delta_g1, key.delta_after), (r, key.r_delta))
                &&& deltas_agree(next.params.vk.delta_g1, next.params.vk.delta_g2)
                &&& batch_agrees(
                    current.params.h,
                    next.params.h,
                    rho_h,
                    next.params.vk.delta_g2,
                    current.params.vk.delta_g2,
                )
                &&& batch_agrees(
                    current.params.l,
                    next.params.l,
                    rho_l,
                    next.params.vk.delta_g2,
                    current.params.vk.delta_g2,
                )
            }
        }),
{
    let next = spec_contribute(current, delta, s);
    assert(next.contributions.drop_last() =~= current.contributions);
}

/// Whether the key at place `i` of a chain passes the two checks of its
/// proof of knowledge that compare pairings.
pub open spec fn key_pairings_hold(keys: Seq<PublicKeyView>, i: int) -> bool {
    let key = keys[i];
    let r = spec_hash_to_g2(key.transcript);
    &&& spec_same_ratio((key.s, key.s_delta), (r, key.r_delta))
    &&& spec_same_ratio((delta_before(keys, i), key.delta_after), (r, key.r_delta))
}

/// In a chain made by contributions to a state without any, every key
/// carries the transcript hash of the keys before it, and the delta in G1 of
/// the state is what the last key left.
pub proof fn lemma_chain_by_construction(
    initial: MpcParametersView,
    secrets: Seq<(Seq<u8>, Seq<u8>)>,
)
    requires
        initial.contributions.len() == 0,
        initial.params.vk.delta_g1 == g1_generator_encoding(),
    ensures
        ({
            let state = contribute_all(initial, secrets);
            let keys = state.contributions;
            &&& keys.len() == secrets.len()
            &&& delta_before(keys, keys.len() as int) == state.params.vk.delta_g1
            &&& forall|i: int|
                0 <= i < keys.len() ==> (#[trigger] keys[i]).transcript == transcript_hash(
                    initial.cs_hash,
                    keys.take(i),
                    keys[i].s,
                    keys[i].s_delta,
                )
        }),
    decreases secrets.len(),
{
    let state = contribute_all(initial, secrets);
    let keys = state.contributions;
    if secrets.len() > 0 {
        let earlier = contribute_all(initial, secrets.drop_last());
        lemma_chain_by_construction(initial, secrets.drop_last());
        law_frozen_fields(initial, secrets.drop_last());
        let n = earlier.contributions.len() as int;
        assert(keys.take(n) =~= earlier.contributions);
        assert forall|i: int| 0 <= i < keys.len() implies (#[trigger] keys[i]).transcript
            == transcript_hash(initial.cs_hash, keys.take(i), keys[i].s, keys[i].s_delta) by {
            if i < n {
                assert(keys[i] == earlier.contributions[i]);
                assert(keys.take(i) =~= earlier.contributions.take(i));
            }
        }
    }
}

/// For a ceremony that starts without contributions and with the generator
/// as its delta in G1, every check of the audit holds by construction after
/// any run of contributions, but those that compare pairings: with one weight
/// for each element of H and of L, the audit passes exactly if those do.
pub proof fn law_chain_checks(
    initial: MpcParametersView,
    secrets: Seq<(Seq<u8>, Seq<u8>)>,
    rho_h: Seq<Seq<u8>>,
    rho_l: Seq<Seq<u8>>,
)
    requires
        initial.contributions.len() == 0,
        initial.params.vk.delta_g1 == g1_generator_encoding(),
        rho_h.len() == initial.params.h.len(),
        rho_l.len() == initial.params.l.len(),
    ensures
        ({
            let state = contribute_all(initial, secrets);
            chain_valid(initial, state, rho_h, rho_l) <==> {
                &&& forall|i: int|
                    0 <= i < state.contributions.len() ==> #[trigger] key_pairings_hold(
                        state.contributions,
                        i,
                    )
                &&& deltas_agree(state.params.vk.delta_g1, state.params.vk.delta_g2)
                &&& batch_agrees(
                    initial.params.h,
                    state.params.h,
                    rho_h,
                    state.params.vk.delta_g2,
                    g2_generator_encoding(),
                )
                &&& batch_agrees(
                    initial.params.l,
                    state.params.l,
                    rho_l,
                    state.params.vk.delta_g2,
                    g2_generator_encoding(),
                )
            }
        }),
{
    let state = contribute_all(initial, secrets);
    let keys = state.contributions;
    lemma_chain_by_construction(initial, secrets);
    law_frozen_fields(initial, secrets);
    assert forall|i: int| 0 <= i < keys.len() implies (#[trigger] key_binds_at(
        initial.cs_hash,
        keys,
        i,
    ) <==> key_pairings_hold(keys, i)) by {
        assert(keys[i].transcript == transcript_hash(
            initial.cs_hash,
            keys.take(i),
            keys[i].s,
            keys[i].s_delta,
        ));
    }
    if chain_binds(initial.cs_hash, keys) {
        assert forall|i: int| 0 <= i < keys.len() implies #[trigger] key_pairings_hold(keys, i) by {
            assert(key_binds_at(initial.cs_hash, keys, i));
        }
    }
    if forall|i: int| 0 <= i < keys.len() ==> #[trigger] key_pairings_hold(keys, i) {
        assert forall|i: int| 0 <= i < keys.len() implies #[trigger] key_binds_at(
            initial.cs_hash,
            keys,
            i,
        ) by {
            assert(key_pairings_hold(keys, i));
        }
    }
}

// ---------------------------------------------------------------------------
// What a chain that passes the audit carries
// ---------------------------------------------------------------------------

/// Proof-of-knowledge binding: for every public key of a chain that passes
/// the audit, with `r` the element that its transcript hashes to, the pairing
/// of `s` with `r_delta` equals that of `s_delta` with `r`, and the pairing
/// of the delta before it with `r_delta` equals that of the delta after it
/// with `r`.
pub proof fn law_proof_of_knowledge(
    initial: MpcParametersView,
    state: MpcParametersView,
    rho_h: Seq<Seq<u8>>,
    rho_l: Seq<Seq<u8>>,
    i: int,
)
    requires
        chain_valid(initial, state, rho_h, rho_l),
        0 <= i < state.contributions.len(),
    ensures
        ({
            let key = state.contributions[i];
            let r = spec_hash_to_g2(key.transcript);
            &&& pairing_value(key.s, key.r_delta) == pairing_value(key.s_delta, r)
            &&& pairing_value(delta_before(state.contributions, i), key.r_delta) == pairing_value(
                key.delta_after,
                r,
            )
        }),
{
    assert(key_binds_at(initial.cs_hash, state.contributions, i));
}

/// Delta consistency: in a state that passes the audit, the pairing of the
/// generator of G1 with delta in G2 equals that of delta in G1 with the
/// generator of G2.
pub proof fn law_delta_consistency(
    initial: MpcParametersView,
    state: MpcParametersView,
    rho_h: Seq<Seq<u8>>,
    rho_l: Seq<Seq<u8>>,
)
    requires
        chain_valid(initial, state, rho_h, rho_l),
    ensures
        pairing_value(g1_generator_encoding(), state.params.vk.delta_g2) == pairing_value(
            state.params.vk.delta_g1,
            g2_generator_encoding(),
        ),
{
}

/// Delta consistency of one step: in a state that passes the check of its
/// last contribution, the deltas in G1 and G2 agree in the same way.
pub proof fn law_delta_consistency_step(
    before: MpcParametersView,
    after: MpcParametersView,
    rho_h: Seq<Seq<u8>>,
    rho_l: Seq<Seq<u8>>,
)
    requires
        contribution_valid(before, after, rho_h, rho_l),
    ensures
        pairing_value(g1_generator_encoding(), after.params.vk.delta_g2) == pairing_value(
            after.params.vk.delta_g1,
            g2_generator_encoding(),
        ),
{
}

/// Contribution inclusion: the hashes that an audit returns hold the receipt
/// of every participant, and as many hashes as there are contributions.
pub proof fn law_contribution_included(
    hashes: Seq<[u8; 64]>,
    keys: Seq<PublicKeyView>,
    i: int,
    mine: [u8; 64],
)
    requires
        hash_views(hashes) == receipts(keys),
        0 <= i < keys.len(),
        mine@ == receipt(keys[i]),
    ensures
        spec_contains(hashes, mine@),
        hashes.len() == keys.len(),
{
    assert(hash_views(hashes).len() == hashes.len());
    assert(receipts(keys).len() == keys.len());
    assert(hash_views(hashes)[i] == hashes[i]@);
    assert(receipts(keys)[i] == receipt(keys[i]));
}

} // verus!
