//! The content hash that keys the compilation cache.
//!
//! The driver hashes the canonical bytes of a function's monomorphized
//! form; a cached artifact is reused only when its recorded hash equals the
//! freshly computed one.

use vstd::prelude::*;

verus! {

/// The 64-bit digest `fxhash` computes over a byte sequence.
pub uninterp spec fn fx_hash64(bytes: Seq<u8>) -> u64;

/// Relies on `fxhash::hash64`: it hashes with `FxHasher64::default()`, a
/// constant initial state, so the digest is a function of the hashed bytes
/// alone.
#[verifier::external_body]
pub(crate) fn fxhash64_bytes(bytes: &Vec<u8>) -> (result: u64)
    ensures
        result == fx_hash64(bytes@),
{
    fxhash::hash64(bytes.as_slice())
}

} // verus!
