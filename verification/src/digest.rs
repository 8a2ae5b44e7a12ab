//! SHA-256 of a byte stream, computed by the `sha2` crate.
//!
//! The library never looks inside a digest: it feeds the body to a hasher in
//! the order in which the bytes arrive and hands the finished digest on. What
//! the hasher computes is therefore left uninterpreted and only given a name,
//! `sha256`. Everything in this module is believed, not proved.

use vstd::prelude::*;
use sha2::Digest;

verus! {

/// A running SHA-256 computation of the `sha2` crate.
///
/// The type `sha2::Sha256` is an alias of a generic type whose bounds Verus
/// cannot take, so the hasher is kept in a field that Verus does not look
/// into.
#[verifier::external_body]
pub struct Sha256Hasher {
    inner: sha2::Sha256,
}

/// The bytes that the hasher has been fed since it was made, in order. The
/// hasher keeps no such record; the name only lets contracts say what a
/// digest is the digest of.
pub uninterp spec fn absorbed(hasher: Sha256Hasher) -> Seq<u8>;

/// The SHA-256 digest of `data`, as `sha2` computes it.
pub uninterp spec fn sha256(data: Seq<u8>) -> Seq<u8>;

/// Calls `sha2::Sha256::new` (`Digest::new`). Believed, not proved: the new
/// hasher has been fed nothing yet.
#[verifier::external_body]
pub(crate) fn hasher_new() -> (hasher: Sha256Hasher)
    ensures
        absorbed(hasher) == Seq::<u8>::empty(),
{
    Sha256Hasher { inner: sha2::Sha256::new() }
}

/// Calls `Digest::update` of `sha2::Sha256`. Believed, not proved: the
/// hasher has then been fed `data` after all that it was fed before.
#[verifier::external_body]
pub(crate) fn hasher_update(hasher: &mut Sha256Hasher, data: &[u8])
    ensures
        absorbed(*final(hasher)) == absorbed(*old(hasher)) + data@,
{
    hasher.inner.update(data)
}

/// Calls `Digest::finalize` of `sha2::Sha256`. Believed, not proved: what
/// comes back is the SHA-256 digest of everything the hasher was fed, and it
/// is 32 bytes long.
#[verifier::external_body]
pub(crate) fn hasher_finalize(hasher: Sha256Hasher) -> (digest: Vec<u8>)
    ensures
        digest@ == sha256(absorbed(hasher)),
        digest@.len() == 32,
{
    hasher.inner.finalize().to_vec()
}

} // verus!
