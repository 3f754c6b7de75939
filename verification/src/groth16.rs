//! Groth16 parameters and their layout on the wire.

use crate::bytes::{be_u32_value, u32_from_be, u32_to_be};
use crate::curve::{G1Point, G2Point};
use crate::wire::{
    g1_views, g2_views, list_bytes, read_g1, read_g1_list, read_g2, read_g2_list, spec_read_g1,
    spec_read_g1_list, spec_read_g2, spec_read_g2_list, write_g1_points, write_g2_points, ReadError,
};
use vstd::prelude::*;

verus! {

/// A verifying key as plain data.
pub struct VerifyingKeyView {
    pub alpha_g1: Seq<u8>,
    pub beta_g1: Seq<u8>,
    pub beta_g2: Seq<u8>,
    pub gamma_g2: Seq<u8>,
    pub delta_g1: Seq<u8>,
    pub delta_g2: Seq<u8>,
    pub ic: Seq<Seq<u8>>,
}

/// Groth16 parameters as plain data.
pub struct ParametersView {
    pub vk: VerifyingKeyView,
    pub h: Seq<Seq<u8>>,
    pub l: Seq<Seq<u8>>,
    pub a: Seq<Seq<u8>>,
    pub b_g1: Seq<Seq<u8>>,
    pub b_g2: Seq<Seq<u8>>,
}

/// The verifying key of a Groth16 parameter set.
#[derive(Debug)]
pub struct VerifyingKey {
    pub alpha_g1: G1Point,
    pub beta_g1: G1Point,
    pub beta_g2: G2Point,
    pub gamma_g2: G2Point,
    pub delta_g1: G1Point,
    pub delta_g2: G2Point,
    /// One element per public input.
    pub ic: Vec<G1Point>,
}

/// A Groth16 parameter set: the verifying key and the prover's queries.
#[derive(Debug)]
pub struct Parameters {
    pub vk: VerifyingKey,
    /// The powers of tau times the vanishing polynomial, over delta.
    pub h: Vec<G1Point>,
    /// One element per auxiliary variable, over delta.
    pub l: Vec<G1Point>,
    /// The A polynomials at tau, without those that vanish.
    pub a: Vec<G1Point>,
    /// The B polynomials at tau in G1, without those that vanish.
    pub b_g1: Vec<G1Point>,
    /// The B polynomials at tau in G2, without those that vanish.
    pub b_g2: Vec<G2Point>,
}

impl View for VerifyingKey {
    type V = VerifyingKeyView;

    open spec fn view(&self) -> VerifyingKeyView {
        VerifyingKeyView {
            alpha_g1: self.alpha_g1@,
            beta_g1: self.beta_g1@,
            beta_g2: self.beta_g2@,
            gamma_g2: self.gamma_g2@,
            delta_g1: self.delta_g1@,
            delta_g2: self.delta_g2@,
            ic: g1_views(self.ic@),
        }
    }
}

impl View for Parameters {
    type V = ParametersView;

    open spec fn view(&self) -> ParametersView {
        ParametersView {
            vk: self.vk@,
            h: g1_views(self.h@),
            l: g1_views(self.l@),
            a: g1_views(self.a@),
            b_g1: g1_views(self.b_g1@),
            b_g2: g2_views(self.b_g2@),
        }
    }
}

/// The six single elements of a verifying key on the wire.
pub open spec fn vk_head_bytes(vk: VerifyingKeyView) -> Seq<u8> {
    vk.alpha_g1 + vk.beta_g1 + vk.beta_g2 + vk.gamma_g2 + vk.delta_g1 + vk.delta_g2
}

/// A verifying key on the wire: its six single elements, then the list of
/// input elements.
pub open spec fn vk_bytes(vk: VerifyingKeyView) -> Seq<u8> {
    vk_head_bytes(vk) + list_bytes(vk.ic)
}

/// Parameters on the wire: the verifying key, then the five queries as lists.
pub open spec fn parameters_bytes(params: ParametersView) -> Seq<u8> {
    vk_bytes(params.vk) + list_bytes(params.h) + list_bytes(params.l) + list_bytes(params.a)
        + list_bytes(params.b_g1) + list_bytes(params.b_g2)
}

/// What reading a counted list of G1 elements at `pos` gives, with the
/// position after it.
pub open spec fn spec_read_g1_counted(bytes: Seq<u8>, pos: int, checked: bool) -> Result<
    (Seq<Seq<u8>>, int),
    ReadError,
> {
    if bytes.len() < pos + 4 {
        Err(ReadError::UnexpectedEof)
    } else {
        let count = be_u32_value(bytes.subrange(pos, pos + 4));
        match spec_read_g1_list(bytes, pos + 4, count as nat, checked) {
            Err(e) => Err(e),
            Ok(points) => Ok((points, pos + 4 + 96 * count)),
        }
    }
}

/// What reading a counted list of G2 elements at `pos` gives, with the
/// position after it.
pub open spec fn spec_read_g2_counted(bytes: Seq<u8>, pos: int, checked: bool) -> Result<
    (Seq<Seq<u8>>, int),
    ReadError,
> {
    if bytes.len() < pos + 4 {
        Err(ReadError::UnexpectedEof)
    } else {
        let count = be_u32_value(bytes.subrange(pos, pos + 4));
        match spec_read_g2_list(bytes, pos + 4, count as nat, checked) {
            Err(e) => Err(e),
            Ok(points) => Ok((points, pos + 4 + 192 * count)),
        }
    }
}

/// What reading a verifying key at `pos` gives, with the position after it.
/// Its elements are always checked; only those of the list may not be the
/// identity.
pub open spec fn spec_read_vk(bytes: Seq<u8>, pos: int) -> Result<(VerifyingKeyView, int), ReadError> {
    match spec_read_g1(bytes, pos, true, false) {
        Err(e) => Err(e),
        Ok(alpha_g1) => match spec_read_g1(bytes, pos + 96, true, false) {
            Err(e) => Err(e),
            Ok(beta_g1) => match spec_read_g2(bytes, pos + 192, true, false) {
                Err(e) => Err(e),
                Ok(beta_g2) => match spec_read_g2(bytes, pos + 384, true, false) {
                    Err(e) => Err(e),
                    Ok(gamma_g2) => match spec_read_g1(bytes, pos + 576, true, false) {
                        Err(e) => Err(e),
                        Ok(delta_g1) => match spec_read_g2(bytes, pos + 672, true, false) {
                            Err(e) => Err(e),
                            Ok(delta_g2) => match spec_read_g1_counted(bytes, pos + 864, true) {
                                Err(e) => Err(e),
                                Ok((ic, next)) => Ok(
                                    (
                                        VerifyingKeyView {
                                            alpha_g1,
                                            beta_g1,
                                            beta_g2,
                                            gamma_g2,
                                            delta_g1,
                                            delta_g2,
                                            ic,
                                        },
                                        next,
                                    ),
                                ),
                            },
                        },
                    },
                },
            },
        },
    }
}

/// What reading parameters at `pos` gives, with the position after them. The
/// queries are checked only if `checked` is set, and never hold the identity.
pub open spec fn spec_read_parameters(bytes: Seq<u8>, pos: int, checked: bool) -> Result<
    (ParametersView, int),
    ReadError,
> {
    match spec_read_vk(bytes, pos) {
        Err(e) => Err(e),
        Ok((vk, at_h)) => match spec_read_g1_counted(bytes, at_h, checked) {
            Err(e) => Err(e),
            Ok((h, at_l)) => match spec_read_g1_counted(bytes, at_l, checked) {
                Err(e) => Err(e),
                Ok((l, at_a)) => match spec_read_g1_counted(bytes, at_a, checked) {
                    Err(e) => Err(e),
                    Ok((a, at_b1)) => match spec_read_g1_counted(bytes, at_b1, checked) {
                        Err(e) => Err(e),
                        Ok((b_g1, at_b2)) => match spec_read_g2_counted(bytes, at_b2, checked) {
                            Err(e) => Err(e),
                            Ok((b_g2, next)) => Ok(
                                (ParametersView { vk, h, l, a, b_g1, b_g2 }, next),
                            ),
                        },
                    },
                },
            },
        },
    }
}

/// Appends a list of G1 elements with its count.
pub fn write_g1_counted(out: &mut Vec<u8>, points: &Vec<G1Point>)
    ensures
        final(out)@ == old(out)@ + list_bytes(g1_views(points@)),
{
    let count = u32_to_be(#[verifier::truncate] (points.len() as u32));
    out.extend_from_slice(count.as_slice());
    write_g1_points(out, points);
    assert(out@ =~= old(out)@ + list_bytes(g1_views(points@)));
}

/// Appends a list of G2 elements with its count.
pub fn write_g2_counted(out: &mut Vec<u8>, points: &Vec<G2Point>)
    ensures
        final(out)@ == old(out)@ + list_bytes(g2_views(points@)),
{
    let count = u32_to_be(#[verifier::truncate] (points.len() as u32));
    out.extend_from_slice(count.as_slice());
    write_g2_points(out, points);
    assert(out@ =~= old(out)@ + list_bytes(g2_views(points@)));
}

/// Reads a counted list of G1 elements at `pos`.
pub fn read_g1_counted(bytes: &[u8], pos: usize, checked: bool) -> (r: Result<
    (Vec<G1Point>, usize),
    ReadError,
>)
    requires
        pos <= bytes@.len(),
    ensures
        match r {
            Ok((points, next)) => spec_read_g1_counted(bytes@, pos as int, checked) == Ok::<
                (Seq<Seq<u8>>, int),
                ReadError,
            >((g1_views(points@), next as int)) && next <= bytes@.len(),
            Err(e) => spec_read_g1_counted(bytes@, pos as int, checked) == Err::<
                (Seq<Seq<u8>>, int),
                ReadError,
            >(e),
        },
{
    assert(bytes.len() == bytes@.len());
    if bytes.len() - pos < 4 {
        return Err(ReadError::UnexpectedEof);
    }
    let prefix = vstd::slice::slice_subrange(bytes, pos, pos + 4);
    let count = u32_from_be(prefix);
    match read_g1_list(bytes, pos + 4, count as usize, checked) {
        Err(e) => Err(e),
        Ok(points) => {
            let next = pos + 4 + 96 * (count as usize);
            Ok((points, next))
        },
    }
}

/// Reads a counted list of G2 elements at `pos`.
pub fn read_g2_counted(bytes: &[u8], pos: usize, checked: bool) -> (r: Result<
    (Vec<G2Point>, usize),
    ReadError,
>)
    requires
        pos <= bytes@.len(),
    ensures
        match r {
            Ok((points, next)) => spec_read_g2_counted(bytes@, pos as int, checked) == Ok::<
                (Seq<Seq<u8>>, int),
                ReadError,
            >((g2_views(points@), next as int)) && next <= bytes@.len(),
            Err(e) => spec_read_g2_counted(bytes@, pos as int, checked) == Err::<
                (Seq<Seq<u8>>, int),
                ReadError,
            >(e),
        },
{
    assert(bytes.len() == bytes@.len());
    if bytes.len() - pos < 4 {
        return Err(ReadError::UnexpectedEof);
    }
    let prefix = vstd::slice::slice_subrange(bytes, pos, pos + 4);
    let count = u32_from_be(prefix);
    match read_g2_list(bytes, pos + 4, count as usize, checked) {
        Err(e) => Err(e),
        Ok(points) => {
            let next = pos + 4 + 192 * (count as usize);
            Ok((points, next))
        },
    }
}

impl VerifyingKey {
    /// Appends this key to `out` as it stands on the wire.
    pub fn write(&self, out: &mut Vec<u8>)
        ensures
            final(out)@ == old(out)@ + vk_bytes(self@),
    {
        let alpha_g1 = self.alpha_g1.to_uncompressed();
        let beta_g1 = self.beta_g1.to_uncompressed();
        let beta_g2 = self.beta_g2.to_uncompressed();
        let gamma_g2 = self.gamma_g2.to_uncompressed();
        let delta_g1 = self.delta_g1.to_uncompressed();
        let delta_g2 = self.delta_g2.to_uncompressed();
        out.extend_from_slice(alpha_g1.as_slice());
        out.extend_from_slice(beta_g1.as_slice());
        out.extend_from_slice(beta_g2.as_slice());
        out.extend_from_slice(gamma_g2.as_slice());
        out.extend_from_slice(delta_g1.as_slice());
        out.extend_from_slice(delta_g2.as_slice());
        assert(out@ =~= old(out)@ + vk_head_bytes(self@));
        write_g1_counted(out, &self.ic);
        assert(out@ =~= old(out)@ + vk_bytes(self@));
    }

    /// Reads a verifying key at `pos`; returns it with the position after it.
    pub fn read_at(bytes: &[u8], pos: usize) -> (r: Result<(VerifyingKey, usize), ReadError>)
        requires
            pos <= bytes@.len(),
        ensures
            match r {
                Ok((vk, next)) => spec_read_vk(bytes@, pos as int) == Ok::<
                    (VerifyingKeyView, int),
                    ReadError,
                >((vk@, next as int)) && next <= bytes@.len(),
                Err(e) => spec_read_vk(bytes@, pos as int) == Err::<
                    (VerifyingKeyView, int),
                    ReadError,
                >(e),
            },
    {
        assert(bytes.len() == bytes@.len());
        let alpha_g1 = match read_g1(bytes, pos, true, false) {
            Ok(point) => point,
            Err(e) => { return Err(e); },
        };
        let beta_g1 = match read_g1(bytes, pos + 96, true, false) {
            Ok(point) => point,
            Err(e) => { return Err(e); },
        };
        let beta_g2 = match read_g2(bytes, pos + 192, true, false) {
            Ok(point) => point,
            Err(e) => { return Err(e); },
        };
        let gamma_g2 = match read_g2(bytes, pos + 384, true, false) {
            Ok(point) => point,
            Err(e) => { return Err(e); },
        };
        let delta_g1 = match read_g1(bytes, pos + 576, true, false) {
            Ok(point) => point,
            Err(e) => { return Err(e); },
        };
        let delta_g2 = match read_g2(bytes, pos + 672, true, false) {
            Ok(point) => point,
            Err(e) => { return Err(e); },
        };
        let (ic, next) = match read_g1_counted(bytes, pos + 864, true) {
            Ok(list) => list,
            Err(e) => { return Err(e); },
        };
        Ok((VerifyingKey { alpha_g1, beta_g1, beta_g2, gamma_g2, delta_g1, delta_g2, ic }, next))
    }
}

impl Parameters {
    /// Appends these parameters to `out` as they stand on the wire.
    pub fn write(&self, out: &mut Vec<u8>)
        ensures
            final(out)@ == old(out)@ + parameters_bytes(self@),
    {
        self.vk.write(out);
        write_g1_counted(out, &self.h);
        write_g1_counted(out, &self.l);
        write_g1_counted(out, &self.a);
        write_g1_counted(out, &self.b_g1);
        write_g2_counted(out, &self.b_g2);
        assert(out@ =~= old(out)@ + parameters_bytes(self@));
    }

    /// Reads parameters at `pos`; returns them with the position after them.
    /// If `checked` is false, the queries are not tested for being on the
    /// curve and in the subgroup.
    pub fn read_at(bytes: &[u8], pos: usize, checked: bool) -> (r: Result<
        (Parameters, usize),
        ReadError,
    >)
        requires
            pos <= bytes@.len(),
        ensures
            match r {
                Ok((params, next)) => spec_read_parameters(bytes@, pos as int, checked) == Ok::<
                    (ParametersView, int),
                    ReadError,
                >((params@, next as int)) && next <= bytes@.len(),
                Err(e) => spec_read_parameters(bytes@, pos as int, checked) == Err::<
                    (ParametersView, int),
                    ReadError,
                >(e),
            },
    {
        let (vk, at_h) = match VerifyingKey::read_at(bytes, pos) {
            Ok(part) => part,
            Err(e) => { return Err(e); },
        };
        let (h, at_l) = match read_g1_counted(bytes, at_h, checked) {
            Ok(part) => part,
            Err(e) => { return Err(e); },
        };
        let (l, at_a) = match read_g1_counted(bytes, at_l, checked) {
            Ok(part) => part,
            Err(e) => { return Err(e); },
        };
        let (a, at_b1) = match read_g1_counted(bytes, at_a, checked) {
            Ok(part) => part,
            Err(e) => { return Err(e); },
        };
        let (b_g1, at_b2) = match read_g1_counted(bytes, at_b1, checked) {
            Ok(part) => part,
            Err(e) => { return Err(e); },
        };
        let (b_g2, next) = match read_g2_counted(bytes, at_b2, checked) {
            Ok(part) => part,
            Err(e) => { return Err(e); },
        };
        Ok((Parameters { vk, h, l, a, b_g1, b_g2 }, next))
    }
}

/// Whether two lists hold the same G1 elements in the same order.
pub fn g1_lists_equal(a: &Vec<G1Point>, b: &Vec<G1Point>) -> (r: bool)
    ensures
        r == (g1_views(a@) == g1_views(b@)),
{
    if a.len() != b.len() {
        assert(g1_views(a@).len() != g1_views(b@).len());
        return false;
    }
    let mut i: usize = 0;
    while i < a.len()
        invariant
            i <= a.len(),
            a.len() == b.len(),
            forall|j: int| 0 <= j < i ==> a@[j]@ == b@[j]@,
        decreases a.len() - i,
    {
        if !a[i].same(&b[i]) {
            assert(g1_views(a@)[i as int] != g1_views(b@)[i as int]);
            return false;
        }
        i = i + 1;
    }
    assert(g1_views(a@) =~= g1_views(b@));
    true
}

/// Whether two lists hold the same G2 elements in the same order.
pub fn g2_lists_equal(a: &Vec<G2Point>, b: &Vec<G2Point>) -> (r: bool)
    ensures
        r == (g2_views(a@) == g2_views(b@)),
{
    if a.len() != b.len() {
        assert(g2_views(a@).len() != g2_views(b@).len());
        return false;
    }
    let mut i: usize = 0;
    while i < a.len()
        invariant
            i <= a.len(),
            a.len() == b.len(),
            forall|j: int| 0 <= j < i ==> a@[j]@ == b@[j]@,
        decreases a.len() - i,
    {
        if !a[i].same(&b[i]) {
            assert(g2_views(a@)[i as int] != g2_views(b@)[i as int]);
            return false;
        }
        i = i + 1;
    }
    assert(g2_views(a@) =~= g2_views(b@));
    true
}

/// A copy of a list of G1 elements.
pub fn copy_g1_points(points: &Vec<G1Point>) -> (r: Vec<G1Point>)
    ensures
        r@ == points@,
{
    let mut out: Vec<G1Point> = Vec::new();
    let mut i: usize = 0;
    while i < points.len()
        invariant
            i <= points.len(),
            out@ == points@.take(i as int),
        decreases points.len() - i,
    {
        out.push(points[i]);
        assert(out@ =~= points@.take(i + 1));
        i = i + 1;
    }
    assert(points@.take(points.len() as int) =~= points@);
    out
}

/// A copy of a list of G2 elements.
pub fn copy_g2_points(points: &Vec<G2Point>) -> (r: Vec<G2Point>)
    ensures
        r@ == points@,
{
    let mut out: Vec<G2Point> = Vec::new();
    let mut i: usize = 0;
    while i < points.len()
        invariant
            i <= points.len(),
            out@ == points@.take(i as int),
        decreases points.len() - i,
    {
        out.push(points[i]);
        assert(out@ =~= points@.take(i + 1));
        i = i + 1;
    }
    assert(points@.take(points.len() as int) =~= points@);
    out
}

impl Clone for VerifyingKey {
    fn clone(&self) -> (r: VerifyingKey)
        ensures
            r@ == self@,
    {
        VerifyingKey {
            alpha_g1: self.alpha_g1,
            beta_g1: self.beta_g1,
            beta_g2: self.beta_g2,
            gamma_g2: self.gamma_g2,
            delta_g1: self.delta_g1,
            delta_g2: self.delta_g2,
            ic: copy_g1_points(&self.ic),
        }
    }
}

impl Clone for Parameters {
    fn clone(&self) -> (r: Parameters)
        ensures
            r@ == self@,
    {
        Parameters {
            vk: self.vk.clone(),
            h: copy_g1_points(&self.h),
            l: copy_g1_points(&self.l),
            a: copy_g1_points(&self.a),
            b_g1: copy_g1_points(&self.b_g1),
            b_g2: copy_g2_points(&self.b_g2),
        }
    }
}

impl PartialEq for VerifyingKey {
    fn eq(&self, other: &VerifyingKey) -> (r: bool) {
        self.alpha_g1.same(&other.alpha_g1) && self.beta_g1.same(&other.beta_g1)
            && self.beta_g2.same(&other.beta_g2) && self.gamma_g2.same(&other.gamma_g2)
            && self.delta_g1.same(&other.delta_g1) && self.delta_g2.same(&other.delta_g2)
            && g1_lists_equal(&self.ic, &other.ic)
    }
}

impl vstd::std_specs::cmp::PartialEqSpecImpl for VerifyingKey {
    open spec fn obeys_eq_spec() -> bool {
        true
    }

    open spec fn eq_spec(&self, other: &VerifyingKey) -> bool {
        self@ == other@
    }
}

impl PartialEq for Parameters {
    fn eq(&self, other: &Parameters) -> (r: bool) {
        self.vk == other.vk && g1_lists_equal(&self.h, &other.h) && g1_lists_equal(
            &self.l,
            &other.l,
        ) && g1_lists_equal(&self.a, &other.a) && g1_lists_equal(&self.b_g1, &other.b_g1)
            && g2_lists_equal(&self.b_g2, &other.b_g2)
    }
}

impl vstd::std_specs::cmp::PartialEqSpecImpl for Parameters {
    open spec fn obeys_eq_spec() -> bool {
        true
    }

    open spec fn eq_spec(&self, other: &Parameters) -> bool {
        self@ == other@
    }
}

} // verus!
