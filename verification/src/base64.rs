//! Base64 text of byte strings, through the `base64` crate (standard alphabet, padded).
use vstd::prelude::*;

verus! {

/// The Base64 text that the standard engine of `base64` writes for the bytes `b`.
pub uninterp spec fn base64_text(b: Seq<u8>) -> Seq<char>;

/// The bytes that the standard engine of `base64` reads from the text `t`, or `None` where `t`
/// is no Base64 text.
pub uninterp spec fn base64_bytes(t: Seq<char>) -> Option<Seq<u8>>;

/// Calls `Engine::encode` of `base64::engine::general_purpose::STANDARD` on `bytes`. Trusted:
/// the text is `base64_text(bytes)`, a function of the bytes alone, and the same engine's
/// `decode` reads these very bytes back from it.
#[verifier::external_body]
pub(crate) fn b64_encode(bytes: &[u8]) -> (s: String)
    ensures
        s@ == base64_text(bytes@),
        base64_bytes(s@) == Some(bytes@),
{
    base64::Engine::encode(&base64::engine::general_purpose::STANDARD, bytes)
}

/// Calls `Engine::decode` of `base64::engine::general_purpose::STANDARD` on `text`, with its
/// error turned into `None`. Trusted: the outcome is `base64_bytes(text)`.
#[verifier::external_body]
pub(crate) fn b64_decode(text: &str) -> (r: Option<Vec<u8>>)
    ensures
        match r {
            Some(v) => base64_bytes(text@) == Some(v@),
            None => base64_bytes(text@) is None,
        },
{
    base64::Engine::decode(&base64::engine::general_purpose::STANDARD, text).ok()
}

} // verus!
