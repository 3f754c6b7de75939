//! The transcript hasher: a writer that keeps a BLAKE2b digest of what passed
//! through it.

use vstd::prelude::*;

verus! {

/// `blake2_rfc::blake2b::Blake2b`, the running state of a BLAKE2b
/// computation. Nothing is known of what a value holds but what it has taken
/// in.
#[verifier::external_type_specification]
#[verifier::external_body]
pub struct ExBlake2b(blake2_rfc::blake2b::Blake2b);

/// The bytes that a BLAKE2b state has taken in so far, in order: those of
/// every call of `Blake2b::update` since `Blake2b::new`.
pub uninterp spec fn blake2b_input(state: blake2_rfc::blake2b::Blake2b) -> Seq<u8>;

/// The BLAKE2b digest of 64 bytes of a message, without a key: what
/// `Blake2b::finalize` gives for it.
pub uninterp spec fn blake2b_64(message: Seq<u8>) -> Seq<u8>;

/// Calls `Blake2b::new` for a digest of 64 bytes. The new state has taken in
/// nothing.
#[verifier::external_body]
fn blake2b_start() -> (r: blake2_rfc::blake2b::Blake2b)
    ensures
        blake2b_input(r) == Seq::<u8>::empty(),
{
    blake2_rfc::blake2b::Blake2b::new(64)
}

/// Calls `Blake2b::update`, which takes in `data` after what came before. The
/// outside function counts the bytes in a `u64` and panics when it overflows.
#[verifier::external_body]
fn blake2b_absorb(state: &mut blake2_rfc::blake2b::Blake2b, data: &[u8])
    requires
        blake2b_input(*old(state)).len() + data@.len() <= u64::MAX,
    ensures
        blake2b_input(*final(state)) == blake2b_input(*old(state)) + data@,
{
    state.update(data);
}

/// Calls `Clone::clone` of `Blake2b`: the copy has taken in the same bytes.
#[verifier::external_body]
fn blake2b_copy(state: &blake2_rfc::blake2b::Blake2b) -> (r: blake2_rfc::blake2b::Blake2b)
    ensures
        blake2b_input(r) == blake2b_input(*state),
{
    state.clone()
}

/// Calls `Blake2b::finalize` and copies the 64 bytes of the result: the digest
/// of everything the state has taken in.
#[verifier::external_body]
fn blake2b_finish(state: blake2_rfc::blake2b::Blake2b) -> (r: [u8; 64])
    ensures
        r@ == blake2b_64(blake2b_input(state)),
{
    let mut out = [0u8; 64];
    out.copy_from_slice(state.finalize().as_bytes());
    out
}

/// A writer that hashes the data being written. The bytes go on to a buffer,
/// or nowhere when the writer was made without one.
pub struct HashWriter {
    writer: Option<Vec<u8>>,
    hasher: blake2_rfc::blake2b::Blake2b,
}

impl HashWriter {
    /// Everything written so far.
    pub closed spec fn hashed(&self) -> Seq<u8> {
        blake2b_input(self.hasher)
    }

    /// What the underlying buffer holds, if there is one.
    pub closed spec fn forwarded(&self) -> Option<Seq<u8>> {
        match self.writer {
            Some(buffer) => Some(buffer@),
            None => None,
        }
    }

    /// A new writer over `writer`; `None` stands for the null sink.
    pub fn new(writer: Option<Vec<u8>>) -> (r: HashWriter)
        ensures
            r.hashed() == Seq::<u8>::empty(),
            r.forwarded() == match writer {
                Some(buffer) => Some(buffer@),
                None => None,
            },
    {
        HashWriter { writer, hasher: blake2b_start() }
    }

    /// Writes all of `buf`: into the digest, and on to the buffer. Returns the
    /// number of bytes written, which is all of them.
    pub fn write(&mut self, buf: &[u8]) -> (r: usize)
        requires
            old(self).hashed().len() + buf@.len() <= u64::MAX,
        ensures
            r == buf@.len(),
            final(self).hashed() == old(self).hashed() + buf@,
            final(self).forwarded() == match old(self).forwarded() {
                Some(before) => Some(before + buf@),
                None => None,
            },
    {
        match &mut self.writer {
            Some(buffer) => {
                buffer.extend_from_slice(buf);
            },
            None => {},
        }
        blake2b_absorb(&mut self.hasher, buf);
        buf.len()
    }

    /// An independent writer over the null sink that has hashed the same
    /// bytes. Only a writer over the null sink can be forked.
    pub fn fork(&self) -> (r: HashWriter)
        requires
            self.forwarded() is None,
        ensures
            r.hashed() == self.hashed(),
            r.forwarded() is None,
    {
        HashWriter { writer: None, hasher: blake2b_copy(&self.hasher) }
    }

    /// Destroys this writer and returns the buffer with all that was
    /// forwarded to it, and the hash of what was written.
    pub fn into_parts(self) -> (r: (Option<Vec<u8>>, [u8; 64]))
        ensures
            r.1@ == blake2b_64(self.hashed()),
            match r.0 {
                Some(buffer) => self.forwarded() == Some(buffer@),
                None => self.forwarded() is None,
            },
    {
        (self.writer, blake2b_finish(self.hasher))
    }

    /// Destroys this writer and returns the hash of what was written.
    pub fn into_hash(self) -> (r: [u8; 64])
        ensures
            r@ == blake2b_64(self.hashed()),
    {
        blake2b_finish(self.hasher)
    }
}

/// The digest of `data` in one call.
pub fn hash_bytes(data: &[u8]) -> (r: [u8; 64])
    ensures
        r@ == blake2b_64(data@),
{
    assert(data@.len() == data.len());
    let mut sink = HashWriter::new(None);
    sink.write(data);
    sink.into_hash()
}

} // verus!
