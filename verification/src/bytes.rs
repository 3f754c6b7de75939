//! Byte strings: comparison, copying, and the 32-bit big-endian length prefix.

use byteorder::ByteOrder;
use vstd::prelude::*;

verus! {

/// The four bytes of `n`, most significant first.
pub open spec fn be_u32(n: u32) -> Seq<u8> {
    seq![
        (n / 0x100_0000) as u8,
        ((n / 0x1_0000) % 0x100) as u8,
        ((n / 0x100) % 0x100) as u8,
        (n % 0x100) as u8,
    ]
}

/// The number whose big-endian form the first four bytes of `bytes` are.
pub open spec fn be_u32_value(bytes: Seq<u8>) -> u32
    recommends
        bytes.len() >= 4,
{
    (bytes[0] * 0x100_0000 + bytes[1] * 0x1_0000 + bytes[2] * 0x100 + bytes[3]) as u32
}

/// Reading a length prefix gives back the number that was written.
pub proof fn lemma_be_u32_round_trip(n: u32)
    ensures
        be_u32(n).len() == 4,
        be_u32_value(be_u32(n)) == n,
{
}

/// Calls `byteorder::BigEndian::write_u32` on a fresh buffer of four bytes,
/// which the outside crate fills with `n`, most significant byte first.
#[verifier::external_body]
pub(crate) fn u32_to_be(n: u32) -> (r: [u8; 4])
    ensures
        r@ == be_u32(n),
{
    let mut buf = [0u8; 4];
    byteorder::BigEndian::write_u32(&mut buf, n);
    buf
}

/// Calls `byteorder::BigEndian::read_u32`, which reads the first four bytes
/// as a number, most significant byte first, and panics on a shorter slice.
#[verifier::external_body]
pub(crate) fn u32_from_be(bytes: &[u8]) -> (r: u32)
    requires
        bytes@.len() >= 4,
    ensures
        r == be_u32_value(bytes@),
{
    byteorder::BigEndian::read_u32(bytes)
}

/// Whether two byte strings are the same.
pub fn bytes_equal(a: &[u8], b: &[u8]) -> (r: bool)
    ensures
        r == (a@ == b@),
{
    if a.len() != b.len() {
        return false;
    }
    let mut i: usize = 0;
    while i < a.len()
        invariant
            i <= a.len(),
            a@.len() == b@.len(),
            forall|j: int| 0 <= j < i ==> a@[j] == b@[j],
        decreases a.len() - i,
    {
        if a[i] != b[i] {
            return false;
        }
        i += 1;
    }
    assert(a@ =~= b@);
    true
}

/// Copies the `N` bytes that start at `pos`.
pub fn take<const N: usize>(bytes: &[u8], pos: usize) -> (r: [u8; N])
    requires
        pos + N <= bytes@.len(),
    ensures
        r@ == bytes@.subrange(pos as int, pos + N),
{
    let mut out = [0u8; N];
    let mut i: usize = 0;
    while i < N
        invariant
            i <= N,
            pos + N <= bytes.len(),
            forall|j: int| 0 <= j < i ==> out@[j] == bytes@[pos + j],
        decreases N - i,
    {
        out[i] = bytes[pos + i];
        i += 1;
    }
    assert(out@ =~= bytes@.subrange(pos as int, pos + N));
    out
}

} // verus!
