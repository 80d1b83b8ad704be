//! The streaming digest accumulator: a SHA-256 state that absorbs the
//! upload's chunks one by one, in the order they are written to storage,
//! and is finalized exactly once after the stream is drained.

use vstd::prelude::*;
use async_hash::Digest;

verus! {

/// Holds the hasher of the `async_hash` crate (its re-export of
/// `sha2::Sha256`). Opaque here; the bytes it has absorbed are named by
/// `absorbed_bytes`.
#[verifier::external_body]
pub struct ShaState {
    inner: async_hash::Sha256,
}

/// The bytes a hasher state has absorbed so far, in order.
pub uninterp spec fn absorbed_bytes(s: ShaState) -> Seq<u8>;

/// The SHA-256 digest of a byte sequence, as `sha2` computes it: a function
/// of the input bytes alone.
pub uninterp spec fn sha256_of(bytes: Seq<u8>) -> Seq<u8>;

/// Relies on `sha2::Sha256::new` (re-exported by `async_hash`): a fresh
/// hasher has absorbed nothing.
#[verifier::external_body]
fn sha_new() -> (s: ShaState)
    ensures
        absorbed_bytes(s) == Seq::<u8>::empty(),
{
    ShaState { inner: async_hash::Sha256::new() }
}

/// Relies on `sha2`'s `Digest::update` (re-exported by `async_hash`): the
/// chunk is absorbed after everything absorbed before it.
#[verifier::external_body]
fn sha_update(s: &mut ShaState, chunk: &Vec<u8>)
    ensures
        absorbed_bytes(*final(s)) == absorbed_bytes(*old(s)) + chunk@,
{
    s.inner.update(chunk.as_slice());
}

/// Relies on `sha2`'s `Digest::finalize` (re-exported by `async_hash`): the
/// 32-byte SHA-256 digest of exactly the absorbed stream.
#[verifier::external_body]
fn sha_finalize(s: ShaState) -> (d: Vec<u8>)
    ensures
        d@ == sha256_of(absorbed_bytes(s)),
        d@.len() == 32,
{
    s.inner.finalize().to_vec()
}

/// The digest accumulator one upload owns: it absorbs each chunk exactly
/// when that chunk goes to storage, so the digest is over the bytes written,
/// in order. Its view is the absorbed byte sequence.
pub struct DigestAcc {
    state: ShaState,
}

impl View for DigestAcc {
    type V = Seq<u8>;

    closed spec fn view(&self) -> Seq<u8> {
        absorbed_bytes(self.state)
    }
}

impl DigestAcc {
    /// A fresh accumulator that has absorbed nothing.
    pub fn new() -> (a: DigestAcc)
        ensures
            a@ == Seq::<u8>::empty(),
    {
        DigestAcc { state: sha_new() }
    }

    /// Absorb one chunk after everything absorbed before it.
    pub fn update(&mut self, chunk: &Vec<u8>)
        ensures
            final(self)@ == old(self)@ + chunk@,
    {
        sha_update(&mut self.state, chunk);
    }

    /// Finalize: the SHA-256 digest of the absorbed stream, 32 bytes.
    pub fn finish(self) -> (d: Vec<u8>)
        ensures
            d@ == sha256_of(self@),
            d@.len() == 32,
    {
        sha_finalize(self.state)
    }
}

} // verus!
