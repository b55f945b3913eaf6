//! Node identities: ed25519 keypairs in their protobuf encoding, through `libp2p::identity`.
use vstd::prelude::*;

verus! {

/// `kp` is the protobuf encoding of a keypair that `Keypair::from_protobuf_encoding` accepts.
pub uninterp spec fn keypair_decodes(kp: Seq<u8>) -> bool;

/// The protobuf encoding of the public key of the keypair encoded as `kp`.
pub uninterp spec fn public_key_of(kp: Seq<u8>) -> Seq<u8>;

/// The signature that the keypair encoded as `kp` makes of `msg`.
pub uninterp spec fn signature_of(kp: Seq<u8>, msg: Seq<u8>) -> Seq<u8>;

/// Whether `sig` is a signature of `msg` by the public key encoded as `pk`; `None` where `pk`
/// encodes no public key.
pub uninterp spec fn signature_check(pk: Seq<u8>, msg: Seq<u8>, sig: Seq<u8>) -> Option<bool>;

/// Calls `Keypair::generate_ed25519()` and `to_protobuf_encoding` on it. Trusted: the encoding
/// of an ed25519 keypair always succeeds and decodes again. The keypair itself is random.
#[verifier::external_body]
pub(crate) fn generate_keypair() -> (r: Option<Vec<u8>>)
    ensures
        match r {
            Some(v) => keypair_decodes(v@),
            None => false,
        },
{
    libp2p::identity::Keypair::generate_ed25519().to_protobuf_encoding().ok()
}

/// Calls `Keypair::from_protobuf_encoding(kp)`. Trusted: whether it succeeds is
/// `keypair_decodes(kp)`.
#[verifier::external_body]
pub(crate) fn keypair_is_valid(kp: &[u8]) -> (r: bool)
    ensures
        r == keypair_decodes(kp@),
{
    libp2p::identity::Keypair::from_protobuf_encoding(kp).is_ok()
}

/// Calls `Keypair::from_protobuf_encoding(kp)`, then `public()` and `encode_protobuf()`.
/// Trusted: the result is `public_key_of(kp)` when `kp` decodes, `None` when it does not; the
/// encoded public key of a keypair decodes again (`PublicKey::try_decode_protobuf`), so it
/// names a peer.
#[verifier::external_body]
pub(crate) fn keypair_public(kp: &[u8]) -> (r: Option<Vec<u8>>)
    ensures
        match r {
            Some(v) => keypair_decodes(kp@) && v@ == public_key_of(kp@)
                && crate::types::peer_id_text_of(v@) is Some,
            None => !keypair_decodes(kp@),
        },
{
    match libp2p::identity::Keypair::from_protobuf_encoding(kp) {
        Ok(k) => Some(k.public().encode_protobuf()),
        Err(_) => None,
    }
}

/// Calls `Keypair::from_protobuf_encoding(kp)`, then `sign(msg)`. Trusted: an ed25519 keypair
/// always signs; the signature is `signature_of(kp, msg)`, and, as the crate documents, it is
/// verified by the corresponding public key. `None` exactly when `kp` does not decode.
#[verifier::external_body]
pub(crate) fn keypair_sign(kp: &[u8], msg: &[u8]) -> (r: Option<Vec<u8>>)
    ensures
        match r {
            Some(s) => keypair_decodes(kp@) && s@ == signature_of(kp@, msg@) && signature_check(
                public_key_of(kp@),
                msg@,
                s@,
            ) == Some(true),
            None => !keypair_decodes(kp@),
        },
{
    match libp2p::identity::Keypair::from_protobuf_encoding(kp) {
        Ok(k) => k.sign(msg).ok(),
        Err(_) => None,
    }
}

/// Calls `PublicKey::try_decode_protobuf(pk)`, then `verify(msg, sig)`. Trusted: the outcome is
/// `signature_check(pk, msg, sig)`, `None` where `pk` does not decode.
#[verifier::external_body]
pub(crate) fn public_key_verify(pk: &[u8], msg: &[u8], sig: &[u8]) -> (r: Option<bool>)
    ensures
        r == signature_check(pk@, msg@, sig@),
{
    match libp2p::identity::PublicKey::try_decode_protobuf(pk) {
        Ok(p) => Some(p.verify(msg, sig)),
        Err(_) => None,
    }
}

} // verus!
