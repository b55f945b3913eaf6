//! Base58 text of byte strings, through the `bs58` crate.
use vstd::prelude::*;

verus! {

/// The Base58 text (Bitcoin alphabet) that `bs58` writes for the bytes `b`.
pub uninterp spec fn base58_text(b: Seq<u8>) -> Seq<char>;

/// The bytes that `bs58` reads from the text `t`, or `None` where `t` is no Base58 text.
pub uninterp spec fn base58_bytes(t: Seq<char>) -> Option<Seq<u8>>;

/// Calls `bs58::encode(bytes).into_string()`. Trusted: the text is `base58_text(bytes)`, a
/// function of the bytes alone, and `bs58::decode` reads these very bytes back from it.
#[verifier::external_body]
pub(crate) fn bs58_encode(bytes: &[u8]) -> (s: String)
    ensures
        s@ == base58_text(bytes@),
        base58_bytes(s@) == Some(bytes@),
{
    bs58::encode(bytes).into_string()
}

/// Calls `bs58::decode(text).into_vec()`, with its error turned into `None`. Trusted: the
/// outcome is `base58_bytes(text)`, a function of the text alone.
#[verifier::external_body]
pub(crate) fn bs58_decode(text: &str) -> (r: Option<Vec<u8>>)
    ensures
        match r {
            Some(v) => base58_bytes(text@) == Some(v@),
            None => base58_bytes(text@) is None,
        },
{
    bs58::decode(text).into_vec().ok()
}

} // verus!
