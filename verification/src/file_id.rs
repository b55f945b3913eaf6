//! Identifiers of files and their text form.
use vstd::prelude::*;
use crate::base58::{base58_bytes, base58_text, bs58_decode, bs58_encode};
use crate::hashing::{blake3_digest, blake3_hash};

verus! {

/// Why a text is no file identifier.
#[derive(Debug, Clone, Copy, PartialEq, Eq, Structural)]
pub enum FileIdError {
    InvalidBase58,
}

/// The identifier of a file: the BLAKE3 digest of its content.
pub fn file_id_of(content: &[u8]) -> (r: Vec<u8>)
    ensures
        r@ == blake3_digest(content@),
{
    let d = blake3_hash(content);
    let mut out: Vec<u8> = Vec::new();
    crate::wire::push_all(&mut out, &d);
    proof {
        assert(out@ =~= d@);
    }
    out
}

/// The identifier whose text is `s`: the bytes that `s` holds in Base58.
pub fn str_to_file_id(s: &str) -> (r: Result<Vec<u8>, FileIdError>)
    ensures
        match base58_bytes(s@) {
            Some(b) => r matches Ok(v) && v@ == b,
            None => r == Err::<Vec<u8>, FileIdError>(FileIdError::InvalidBase58),
        },
{
    match bs58_decode(s) {
        Some(v) => Ok(v),
        None => Err(FileIdError::InvalidBase58),
    }
}

/// The text of the identifier `id`: its bytes in Base58.
pub fn file_id_to_str(id: &[u8]) -> (r: String)
    ensures
        r@ == base58_text(id@),
        base58_bytes(r@) == Some(id@),
{
    bs58_encode(id)
}

} // verus!
