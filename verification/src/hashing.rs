//! Object identifiers: BLAKE3 digests, through the `blake3` crate.
use vstd::prelude::*;

verus! {

/// The BLAKE3 digest that `blake3::hash` computes for `data`.
pub uninterp spec fn blake3_digest(data: Seq<u8>) -> Seq<u8>;

/// Calls `blake3::hash(data)` and takes its 32 bytes. Trusted: they are `blake3_digest(data)`,
/// a function of the data alone.
#[verifier::external_body]
pub(crate) fn blake3_hash(data: &[u8]) -> (r: [u8; 32])
    ensures
        r@ == blake3_digest(data@),
{
    *blake3::hash(data).as_bytes()
}

} // verus!
