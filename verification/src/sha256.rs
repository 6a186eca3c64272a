//! A thin, trusted layer over the SHA-256 implementation of the `sha2`
//! crate: an incremental hash state, named by the sequence of bytes it has
//! absorbed so far.

use vstd::prelude::*;
use sha2::Digest;

verus! {

#[verifier::external_type_specification]
#[verifier::external_body]
pub struct ExSha256(sha2::Sha256);

/// The bytes a hash state has absorbed since construction, in order. The
/// wrappers below say how each operation of the `sha2` crate changes them.
pub uninterp spec fn absorbed(s: sha2::Sha256) -> Seq<u8>;

/// The SHA-256 digest of a byte sequence. The digest is a pure function of
/// the absorbed bytes alone; that it is 32 bytes long is stated where a
/// wrapper returns it.
pub uninterp spec fn sha256_of(data: Seq<u8>) -> Seq<u8>;

/// Relies on `sha2::Sha256::new` (through `sha2::Digest`): a fresh hash
/// state that has absorbed nothing.
#[verifier::external_body]
pub fn sha256_new() -> (s: sha2::Sha256)
    ensures
        absorbed(s) == Seq::<u8>::empty(),
{
    sha2::Sha256::new()
}

/// Relies on `sha2::Sha256::update` (through `sha2::Digest`): absorbs the
/// given bytes after everything absorbed before, in order.
#[verifier::external_body]
pub fn sha256_update(s: &mut sha2::Sha256, data: &[u8])
    ensures
        absorbed(*final(s)) == absorbed(*old(s)) + data@,
{
    s.update(data);
}

/// Relies on `sha2::Sha256::finalize` (through `sha2::Digest`): returns the
/// 32-byte SHA-256 digest of all absorbed bytes, a function of those bytes
/// alone.
#[verifier::external_body]
pub fn sha256_digest(s: sha2::Sha256) -> (r: [u8; 32])
    ensures
        r@ == sha256_of(absorbed(s)),
{
    s.finalize().into()
}

} // verus!
