//! Reading group elements out of a byte string, and the shape of a list on
//! the wire.

use crate::bytes::{be_u32, take};
use crate::curve::{
    g1_encoding, g1_member, g2_encoding, g2_member, identity_flag, G1Point, G2Point,
};
use vstd::prelude::*;

verus! {

/// Why a byte string could not be read.
#[derive(Clone, Copy, Debug, PartialEq, Eq, Structural)]
pub enum ReadError {
    /// The bytes end before the value does.
    UnexpectedEof,
    /// The bytes are not the encoding of a group element.
    InvalidPoint,
    /// The element is the point at infinity where none is allowed.
    PointAtInfinity,
}

/// The encodings of a list of G1 elements.
pub open spec fn g1_views(points: Seq<G1Point>) -> Seq<Seq<u8>> {
    Seq::new(points.len(), |i: int| points[i]@)
}

/// The encodings of a list of G2 elements.
pub open spec fn g2_views(points: Seq<G2Point>) -> Seq<Seq<u8>> {
    Seq::new(points.len(), |i: int| points[i]@)
}

/// The byte strings of `parts`, one after the other.
pub open spec fn concat(parts: Seq<Seq<u8>>) -> Seq<u8>
    decreases parts.len(),
{
    if parts.len() == 0 {
        Seq::empty()
    } else {
        concat(parts.drop_last()) + parts.last()
    }
}

/// A list on the wire: the count, cut to 32 bits and big-endian, then the
/// elements.
pub open spec fn list_bytes(parts: Seq<Seq<u8>>) -> Seq<u8> {
    be_u32(parts.len() as u32) + concat(parts)
}

/// What reading one G1 element at `pos` gives: the 96 bytes there, if they
/// are all present, pass the decoder asked for, and are not the identity
/// where it is rejected.
pub open spec fn spec_read_g1(bytes: Seq<u8>, pos: int, checked: bool, reject_identity: bool)
    -> Result<Seq<u8>, ReadError> {
    if bytes.len() < pos + 96 {
        Err(ReadError::UnexpectedEof)
    } else {
        let encoding = bytes.subrange(pos, pos + 96);
        if !(if checked {
            g1_member(encoding)
        } else {
            g1_encoding(encoding)
        }) {
            Err(ReadError::InvalidPoint)
        } else if reject_identity && identity_flag(encoding) {
            Err(ReadError::PointAtInfinity)
        } else {
            Ok(encoding)
        }
    }
}

/// What reading one G2 element at `pos` gives: as for G1, on 192 bytes.
pub open spec fn spec_read_g2(bytes: Seq<u8>, pos: int, checked: bool, reject_identity: bool)
    -> Result<Seq<u8>, ReadError> {
    if bytes.len() < pos + 192 {
        Err(ReadError::UnexpectedEof)
    } else {
        let encoding = bytes.subrange(pos, pos + 192);
        if !(if checked {
            g2_member(encoding)
        } else {
            g2_encoding(encoding)
        }) {
            Err(ReadError::InvalidPoint)
        } else if reject_identity && identity_flag(encoding) {
            Err(ReadError::PointAtInfinity)
        } else {
            Ok(encoding)
        }
    }
}

/// What reading `count` G1 elements from `pos` on gives: the elements, or the
/// error of the first that fails. The identity is rejected.
pub open spec fn spec_read_g1_list(bytes: Seq<u8>, pos: int, count: nat, checked: bool)
    -> Result<Seq<Seq<u8>>, ReadError>
    decreases count,
{
    if count == 0 {
        Ok(Seq::empty())
    } else {
        match spec_read_g1_list(bytes, pos, (count - 1) as nat, checked) {
            Err(e) => Err(e),
            Ok(before) => match spec_read_g1(bytes, pos + 96 * (count - 1), checked, true) {
                Err(e) => Err(e),
                Ok(point) => Ok(before.push(point)),
            },
        }
    }
}

/// What reading `count` G2 elements from `pos` on gives: the elements, or the
/// error of the first that fails. The identity is rejected.
pub open spec fn spec_read_g2_list(bytes: Seq<u8>, pos: int, count: nat, checked: bool)
    -> Result<Seq<Seq<u8>>, ReadError>
    decreases count,
{
    if count == 0 {
        Ok(Seq::empty())
    } else {
        match spec_read_g2_list(bytes, pos, (count - 1) as nat, checked) {
            Err(e) => Err(e),
            Ok(before) => match spec_read_g2(bytes, pos + 192 * (count - 1), checked, true) {
                Err(e) => Err(e),
                Ok(point) => Ok(before.push(point)),
            },
        }
    }
}

/// Reads one G1 element at `pos`.
pub fn read_g1(bytes: &[u8], pos: usize, checked: bool, reject_identity: bool) -> (r: Result<
    G1Point,
    ReadError,
>)
    requires
        pos <= bytes@.len(),
    ensures
        match r {
            Ok(point) => spec_read_g1(bytes@, pos as int, checked, reject_identity) == Ok::<
                Seq<u8>,
                ReadError,
            >(point@) && pos + 96 <= bytes@.len(),
            Err(e) => spec_read_g1(bytes@, pos as int, checked, reject_identity) == Err::<
                Seq<u8>,
                ReadError,
            >(e),
        },
{
    if bytes.len() - pos < 96 {
        return Err(ReadError::UnexpectedEof);
    }
    let encoding: [u8; 96] = take(bytes, pos);
    let decoded = if checked {
        G1Point::from_uncompressed(&encoding)
    } else {
        G1Point::from_uncompressed_unchecked(&encoding)
    };
    match decoded {
        None => Err(ReadError::InvalidPoint),
        Some(point) => {
            if reject_identity && point.is_identity() {
                Err(ReadError::PointAtInfinity)
            } else {
                Ok(point)
            }
        },
    }
}

/// Reads one G2 element at `pos`.
pub fn read_g2(bytes: &[u8], pos: usize, checked: bool, reject_identity: bool) -> (r: Result<
    G2Point,
    ReadError,
>)
    requires
        pos <= bytes@.len(),
    ensures
        match r {
            Ok(point) => spec_read_g2(bytes@, pos as int, checked, reject_identity) == Ok::<
                Seq<u8>,
                ReadError,
            >(point@) && pos + 192 <= bytes@.len(),
            Err(e) => spec_read_g2(bytes@, pos as int, checked, reject_identity) == Err::<
                Seq<u8>,
                ReadError,
            >(e),
        },
{
    if bytes.len() - pos < 192 {
        return Err(ReadError::UnexpectedEof);
    }
    let encoding: [u8; 192] = take(bytes, pos);
    let decoded = if checked {
        G2Point::from_uncompressed(&encoding)
    } else {
        G2Point::from_uncompressed_unchecked(&encoding)
    };
    match decoded {
        None => Err(ReadError::InvalidPoint),
        Some(point) => {
            if reject_identity && point.is_identity() {
                Err(ReadError::PointAtInfinity)
            } else {
                Ok(point)
            }
        },
    }
}

/// Reads `count` G1 elements from `pos` on, none of them the identity.
pub fn read_g1_list(bytes: &[u8], pos: usize, count: usize, checked: bool) -> (r: Result<
    Vec<G1Point>,
    ReadError,
>)
    requires
        pos <= bytes@.len(),
    ensures
        match r {
            Ok(points) => spec_read_g1_list(bytes@, pos as int, count as nat, checked) == Ok::<
                Seq<Seq<u8>>,
                ReadError,
            >(g1_views(points@)) && pos + 96 * count <= bytes@.len() && points@.len() == count,
            Err(e) => spec_read_g1_list(bytes@, pos as int, count as nat, checked) == Err::<
                Seq<Seq<u8>>,
                ReadError,
            >(e),
        },
{
    let mut points: Vec<G1Point> = Vec::new();
    let mut at: usize = pos;
    let mut i: usize = 0;
    assert(g1_views(points@) =~= Seq::<Seq<u8>>::empty());
    while i < count
        invariant
            i <= count,
            at == pos + 96 * i,
            at <= bytes.len(),
            points@.len() == i,
            spec_read_g1_list(bytes@, pos as int, i as nat, checked) == Ok::<
                Seq<Seq<u8>>,
                ReadError,
            >(g1_views(points@)),
        decreases count - i,
    {
        match read_g1(bytes, at, checked, true) {
            Err(e) => {
                proof {
                    lemma_read_g1_list_fails(bytes@, pos as int, (i + 1) as nat, count as nat, checked);
                }
                return Err(e);
            },
            Ok(point) => {
                proof {
                    assert(g1_views(points@.push(point)) =~= g1_views(points@).push(point@));
                }
                points.push(point);
                at = at + 96;
                i = i + 1;
            },
        }
    }
    Ok(points)
}

/// Reads `count` G2 elements from `pos` on, none of them the identity.
pub fn read_g2_list(bytes: &[u8], pos: usize, count: usize, checked: bool) -> (r: Result<
    Vec<G2Point>,
    ReadError,
>)
    requires
        pos <= bytes@.len(),
    ensures
        match r {
            Ok(points) => spec_read_g2_list(bytes@, pos as int, count as nat, checked) == Ok::<
                Seq<Seq<u8>>,
                ReadError,
            >(g2_views(points@)) && pos + 192 * count <= bytes@.len() && points@.len() == count,
            Err(e) => spec_read_g2_list(bytes@, pos as int, count as nat, checked) == Err::<
                Seq<Seq<u8>>,
                ReadError,
            >(e),
        },
{
    let mut points: Vec<G2Point> = Vec::new();
    let mut at: usize = pos;
    let mut i: usize = 0;
    assert(g2_views(points@) =~= Seq::<Seq<u8>>::empty());
    while i < count
        invariant
            i <= count,
            at == pos + 192 * i,
            at <= bytes.len(),
            points@.len() == i,
            spec_read_g2_list(bytes@, pos as int, i as nat, checked) == Ok::<
                Seq<Seq<u8>>,
                ReadError,
            >(g2_views(points@)),
        decreases count - i,
    {
        match read_g2(bytes, at, checked, true) {
            Err(e) => {
                proof {
                    lemma_read_g2_list_fails(bytes@, pos as int, (i + 1) as nat, count as nat, checked);
                }
                return Err(e);
            },
            Ok(point) => {
                proof {
                    assert(g2_views(points@.push(point)) =~= g2_views(points@).push(point@));
                }
                points.push(point);
                at = at + 192;
                i = i + 1;
            },
        }
    }
    Ok(points)
}

/// Once reading the first `failed` elements fails, reading more fails alike.
pub proof fn lemma_read_g1_list_fails(
    bytes: Seq<u8>,
    pos: int,
    failed: nat,
    count: nat,
    checked: bool,
)
    requires
        failed <= count,
        spec_read_g1_list(bytes, pos, failed, checked) is Err,
    ensures
        spec_read_g1_list(bytes, pos, count, checked) == spec_read_g1_list(
            bytes,
            pos,
            failed,
            checked,
        ),
    decreases count,
{
    if failed < count {
        lemma_read_g1_list_fails(bytes, pos, failed, (count - 1) as nat, checked);
    }
}

/// Once reading the first `failed` elements fails, reading more fails alike.
pub proof fn lemma_read_g2_list_fails(
    bytes: Seq<u8>,
    pos: int,
    failed: nat,
    count: nat,
    checked: bool,
)
    requires
        failed <= count,
        spec_read_g2_list(bytes, pos, failed, checked) is Err,
    ensures
        spec_read_g2_list(bytes, pos, count, checked) == spec_read_g2_list(
            bytes,
            pos,
            failed,
            checked,
        ),
    decreases count,
{
    if failed < count {
        lemma_read_g2_list_fails(bytes, pos, failed, (count - 1) as nat, checked);
    }
}

/// Appends the encodings of `points` to `out`.
pub fn write_g1_points(out: &mut Vec<u8>, points: &Vec<G1Point>)
    ensures
        final(out)@ == old(out)@ + concat(g1_views(points@)),
{
    let mut i: usize = 0;
    assert(g1_views(points@).take(0) =~= Seq::<Seq<u8>>::empty());
    assert(out@ =~= old(out)@ + concat(g1_views(points@).take(0)));
    while i < points.len()
        invariant
            i <= points.len(),
            out@ == old(out)@ + concat(g1_views(points@).take(i as int)),
        decreases points.len() - i,
    {
        let encoding = points[i].to_uncompressed();
        out.extend_from_slice(encoding.as_slice());
        proof {
            let all = g1_views(points@);
            assert(all.take(i + 1).drop_last() =~= all.take(i as int));
            assert(all.take(i + 1).last() == points@[i as int]@);
            assert(out@ =~= old(out)@ + concat(all.take(i + 1)));
        }
        i = i + 1;
    }
    assert(g1_views(points@).take(points.len() as int) =~= g1_views(points@));
}

/// Appends the encodings of `points` to `out`.
pub fn write_g2_points(out: &mut Vec<u8>, points: &Vec<G2Point>)
    ensures
        final(out)@ == old(out)@ + concat(g2_views(points@)),
{
    let mut i: usize = 0;
    assert(g2_views(points@).take(0) =~= Seq::<Seq<u8>>::empty());
    assert(out@ =~= old(out)@ + concat(g2_views(points@).take(0)));
    while i < points.len()
        invariant
            i <= points.len(),
            out@ == old(out)@ + concat(g2_views(points@).take(i as int)),
        decreases points.len() - i,
    {
        let encoding = points[i].to_uncompressed();
        out.extend_from_slice(encoding.as_slice());
        proof {
            let all = g2_views(points@);
            assert(all.take(i + 1).drop_last() =~= all.take(i as int));
            assert(all.take(i + 1).last() == points@[i as int]@);
            assert(out@ =~= old(out)@ + concat(all.take(i + 1)));
        }
        i = i + 1;
    }
    assert(g2_views(points@).take(points.len() as int) =~= g2_views(points@));
}

} // verus!
