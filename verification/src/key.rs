//! Keys of fragments and objects in the vault: 32 bytes, seen also as four big-endian words.
use vstd::prelude::*;
use crate::be_bytes::{
    be_bytes, be_value, bits_from_i64, lemma_be_bytes_len, lemma_be_value_bound, lemma_be_value_of_bytes,
    lemma_bytes_of_be_value, lemma_pow256_8, bits_of_i64, i64_from_bits, i64_of_bits, u64_from_be, u64_to_be,
};
use crate::base58::{base58_bytes, base58_text, bs58_decode, bs58_encode};

verus! {

/// A 32-byte key.
#[derive(Clone, Copy, Debug)]
pub struct Key {
    value_bytes: [u8; 32],
}

/// Why a key could not be made.
#[derive(Debug, Clone, Copy, PartialEq, Eq, Structural)]
pub enum KeyError {
    /// The text is no Base58 text.
    InvalidBase58,
    /// The text is no Base64 text.
    InvalidBase64,
    /// The text decodes to this many bytes, not 32.
    WrongLength(usize),
}

impl View for Key {
    type V = Seq<u8>;

    closed spec fn view(&self) -> Seq<u8> {
        self.value_bytes@
    }
}

/// The four big-endian words that 32 bytes hold.
pub open spec fn words_of(b: Seq<u8>) -> Seq<u64> {
    Seq::new(4, |i: int| be_value(b.subrange(8 * i, 8 * i + 8)) as u64)
}

/// The four signed big-endian words that 32 bytes hold.
pub open spec fn signed_words_of(b: Seq<u8>) -> Seq<i64> {
    Seq::new(4, |i: int| i64_of_bits(be_value(b.subrange(8 * i, 8 * i + 8))) as i64)
}

/// The 32 bytes of four big-endian words.
pub open spec fn bytes_of_words(w: Seq<u64>) -> Seq<u8> {
    be_bytes(w[0] as nat, 8) + be_bytes(w[1] as nat, 8) + be_bytes(w[2] as nat, 8) + be_bytes(
        w[3] as nat,
        8,
    )
}

/// The 32 bytes of four signed big-endian words.
pub open spec fn bytes_of_signed_words(w: Seq<i64>) -> Seq<u8> {
    bytes_of_words(Seq::new(4, |i: int| bits_of_i64(w[i] as int) as u64))
}

impl Key {
    /// A key's bytes are always 32.
    pub proof fn lemma_len(&self)
        ensures
            self@.len() == 32,
    {
    }

    /// A key with random bytes.
    pub fn random() -> (k: Key)
        ensures
            k@.len() == 32,
    {
        let parts: [u64; 4] = [random_u64(), random_u64(), random_u64(), random_u64()];
        Key::from_u64s(parts)
    }

    /// The four big-endian words of the key.
    pub fn as_u64_slice_be(&self) -> (r: [u64; 4])
        ensures
            r@ == words_of(self@),
    {
        let mut result: [u64; 4] = [0u64; 4];
        let mut i: usize = 0;
        while i < 4
            invariant
                i <= 4,
                forall|j: int| 0 <= j < i ==> result@[j] == words_of(self.value_bytes@)[j],
            decreases 4 - i,
        {
            result[i] = u64_from_be(&self.value_bytes, i * 8);
            i = i + 1;
        }
        proof {
            assert(result@ =~= words_of(self.value_bytes@));
        }
        result
    }

    /// The key's bytes.
    pub fn as_u8_slice_be(&self) -> (r: [u8; 32])
        ensures
            r@ == self@,
    {
        self.value_bytes
    }

    /// The key's bytes in Base58.
    pub fn as_base58(&self) -> (s: String)
        ensures
            s@ == base58_text(self@),
            base58_bytes(s@) == Some(self@),
    {
        bs58_encode(&self.value_bytes)
    }

    /// The key's bytes in Base64.
    pub fn as_base64(&self) -> (s: String)
        ensures
            s@ == crate::base64::base64_text(self@),
            crate::base64::base64_bytes(s@) == Some(self@),
    {
        crate::base64::b64_encode(&self.value_bytes)
    }

    /// `r` is what reading a key from the Base64 text `t` gives.
    pub open spec fn from_base64_outcome(t: Seq<char>, r: Result<Key, KeyError>) -> bool {
        match crate::base64::base64_bytes(t) {
            None => r == Err::<Key, KeyError>(KeyError::InvalidBase64),
            Some(b) => if b.len() == 32 {
                r matches Ok(k) && k@ == b
            } else {
                r == Err::<Key, KeyError>(KeyError::WrongLength(b.len() as usize))
            },
        }
    }

    /// The key whose Base64 text is `base64_string`: an error where it is no Base64 text or
    /// does not hold exactly 32 bytes.
    pub fn try_from_base64(base64_string: String) -> (r: Result<Key, KeyError>)
        ensures
            Key::from_base64_outcome(base64_string@, r),
    {
        let value_bytes = match crate::base64::b64_decode(base64_string.as_str()) {
            Some(v) => v,
            None => return Err(KeyError::InvalidBase64),
        };
        if value_bytes.len() != 32 {
            return Err(KeyError::WrongLength(value_bytes.len()));
        }
        let k = Key::try_from_slice(value_bytes.as_slice());
        proof {
            assert(value_bytes@.subrange(0, 32) =~= value_bytes@);
        }
        Ok(k)
    }

    /// The key's text form: its bytes in Base58.
    pub fn to_string(&self) -> (s: String)
        ensures
            s@ == base58_text(self@),
    {
        bs58_encode(&self.value_bytes)
    }

    /// The key whose Base58 text is `input`: an error where `input` is no Base58 text or does
    /// not hold exactly 32 bytes.
    pub fn from_base58(input: String) -> (r: Result<Key, KeyError>)
        ensures
            Key::from_base58_outcome(input@, r),
    {
        Key::try_from_base58(input)
    }

    /// `r` is what reading a key from the text `t` gives.
    pub open spec fn from_base58_outcome(t: Seq<char>, r: Result<Key, KeyError>) -> bool {
        match base58_bytes(t) {
            None => r == Err::<Key, KeyError>(KeyError::InvalidBase58),
            Some(b) => if b.len() == 32 {
                r matches Ok(k) && k@ == b
            } else {
                r == Err::<Key, KeyError>(KeyError::WrongLength(b.len() as usize))
            },
        }
    }

    /// The key whose Base58 text is `base58_string`.
    pub fn try_from_base58(base58_string: String) -> (r: Result<Key, KeyError>)
        ensures
            Key::from_base58_outcome(base58_string@, r),
    {
        let value_bytes = match bs58_decode(base58_string.as_str()) {
            Some(v) => v,
            None => return Err(KeyError::InvalidBase58),
        };
        if value_bytes.len() != 32 {
            return Err(KeyError::WrongLength(value_bytes.len()));
        }
        let k = Key::try_from_slice(value_bytes.as_slice());
        proof {
            assert(value_bytes@.subrange(0, 32) =~= value_bytes@);
        }
        Ok(k)
    }

    /// The key of the first 32 bytes of `value_bytes`.
    pub fn try_from_slice(value_bytes: &[u8]) -> (k: Key)
        requires
            value_bytes@.len() >= 32,
        ensures
            k@ == value_bytes@.subrange(0, 32),
    {
        let mut out: [u8; 32] = [0u8; 32];
        let mut i: usize = 0;
        while i < 32
            invariant
                i <= 32,
                value_bytes@.len() >= 32,
                forall|j: int| 0 <= j < i ==> out@[j] == value_bytes@[j],
            decreases 32 - i,
        {
            out[i] = value_bytes[i];
            i = i + 1;
        }
        proof {
            assert(out@ =~= value_bytes@.subrange(0, 32));
        }
        Key { value_bytes: out }
    }

    /// The key of the first 32 bytes of `value_bytes`.
    pub fn try_from_vec(value_bytes: Vec<u8>) -> (k: Key)
        requires
            value_bytes@.len() >= 32,
        ensures
            k@ == value_bytes@.subrange(0, 32),
    {
        Key::try_from_slice(value_bytes.as_slice())
    }

    /// The key of 32 bytes.
    pub fn from_bytes(value_bytes: [u8; 32]) -> (k: Key)
        ensures
            k@ == value_bytes@,
    {
        Key { value_bytes }
    }

    /// The key of four big-endian words.
    pub fn from_u64s(value_u64s: [u64; 4]) -> (k: Key)
        ensures
            k@ == bytes_of_words(value_u64s@),
    {
        let mut out: [u8; 32] = [0u8; 32];
        let mut i: usize = 0;
        while i < 4
            invariant
                i <= 4,
                forall|j: int|
                    0 <= j < i ==> #[trigger] out@.subrange(8 * j, 8 * j + 8) == be_bytes(
                        value_u64s@[j] as nat,
                        8,
                    ),
            decreases 4 - i,
        {
            let ghost before = out@;
            u64_to_be(&mut out, i * 8, value_u64s[i]);
            proof {
                assert forall|j: int| 0 <= j < i + 1 implies #[trigger] out@.subrange(8 * j, 8 * j + 8)
                    == be_bytes(value_u64s@[j] as nat, 8) by {
                    if j < i {
                        assert(out@.subrange(8 * j, 8 * j + 8) =~= before.subrange(8 * j, 8 * j + 8));
                    }
                }
            }
            i = i + 1;
        }
        proof {
            lemma_split_32(out@);
            assert(out@.subrange(8 * 0int, 8 * 0int + 8) == be_bytes(value_u64s@[0] as nat, 8));
            assert(out@.subrange(8 * 1int, 8 * 1int + 8) == be_bytes(value_u64s@[1] as nat, 8));
            assert(out@.subrange(8 * 2int, 8 * 2int + 8) == be_bytes(value_u64s@[2] as nat, 8));
            assert(out@.subrange(8 * 3int, 8 * 3int + 8) == be_bytes(value_u64s@[3] as nat, 8));
        }
        Key { value_bytes: out }
    }

    /// The key of four signed big-endian words.
    pub fn from_i64s(value_i64s: [i64; 4]) -> (k: Key)
        ensures
            k@ == bytes_of_signed_words(value_i64s@),
    {
        let parts: [u64; 4] = [
            bits_from_i64(value_i64s[0]),
            bits_from_i64(value_i64s[1]),
            bits_from_i64(value_i64s[2]),
            bits_from_i64(value_i64s[3]),
        ];
        proof {
            assert(parts@ =~= Seq::new(4, |i: int| bits_of_i64(value_i64s@[i] as int) as u64));
        }
        Key::from_u64s(parts)
    }

    /// The key of the first four big-endian words of `value_u64s`.
    pub fn try_from_u64_slice(value_u64s: &[u64]) -> (k: Key)
        requires
            value_u64s@.len() >= 4,
        ensures
            k@ == bytes_of_words(value_u64s@.subrange(0, 4)),
    {
        let parts: [u64; 4] = [value_u64s[0], value_u64s[1], value_u64s[2], value_u64s[3]];
        proof {
            assert(parts@ =~= value_u64s@.subrange(0, 4));
        }
        Key::from_u64s(parts)
    }

    /// The key of the first four big-endian words of `value_u64s`.
    pub fn try_from_u64_vec(value_u64s: Vec<u64>) -> (k: Key)
        requires
            value_u64s@.len() >= 4,
        ensures
            k@ == bytes_of_words(value_u64s@.subrange(0, 4)),
    {
        Key::try_from_u64_slice(value_u64s.as_slice())
    }

    /// The four big-endian words of the key.
    pub fn into_u64s(self) -> (r: [u64; 4])
        ensures
            r@ == words_of(self@),
    {
        self.as_u64_slice_be()
    }

    /// The four big-endian words of the key.
    pub fn into_u64_vec(self) -> (r: Vec<u64>)
        ensures
            r@ == words_of(self@),
    {
        let w = self.as_u64_slice_be();
        let mut v: Vec<u64> = Vec::new();
        v.push(w[0]);
        v.push(w[1]);
        v.push(w[2]);
        v.push(w[3]);
        proof {
            assert(v@ =~= w@);
        }
        v
    }

    /// The four signed big-endian words of the key.
    pub fn into_i64s(self) -> (r: [i64; 4])
        ensures
            r@ == signed_words_of(self@),
    {
        let w = self.as_u64_slice_be();
        let r: [i64; 4] = [
            i64_from_bits(w[0]),
            i64_from_bits(w[1]),
            i64_from_bits(w[2]),
            i64_from_bits(w[3]),
        ];
        proof {
            lemma_words_fit(self.value_bytes@);
            assert(r@ =~= signed_words_of(self.value_bytes@));
        }
        r
    }

    /// The hash with the key's bytes.
    pub fn to_hash(&self) -> (h: crate::proto::Hash)
        ensures
            h.bytes@ == self@,
    {
        crate::proto::Hash { bytes: self.value_bytes }
    }

    /// Two keys are equal when their bytes are.
    pub fn eq(&self, other: &Key) -> (r: bool)
        ensures
            r == (self@ == other@),
    {
        let mut i: usize = 0;
        while i < 32
            invariant
                i <= 32,
                forall|j: int| 0 <= j < i ==> self.value_bytes@[j] == other.value_bytes@[j],
            decreases 32 - i,
        {
            if self.value_bytes[i] != other.value_bytes[i] {
                return false;
            }
            i = i + 1;
        }
        proof {
            assert(self.value_bytes@ =~= other.value_bytes@);
        }
        true
    }
}

/// Each 8-byte piece of 32 bytes reads as a number below 2^64.
pub proof fn lemma_words_fit(b: Seq<u8>)
    requires
        b.len() == 32,
    ensures
        forall|i: int|
            0 <= i < 4 ==> #[trigger] be_value(b.subrange(8 * i, 8 * i + 8)) < 0x1_0000_0000_0000_0000,
{
    lemma_pow256_8();
    assert forall|i: int| 0 <= i < 4 implies #[trigger] be_value(b.subrange(8 * i, 8 * i + 8))
        < 0x1_0000_0000_0000_0000 by {
        lemma_be_value_bound(b.subrange(8 * i, 8 * i + 8));
    }
}

/// 32 bytes are the concatenation of their four 8-byte pieces.
pub proof fn lemma_split_32(b: Seq<u8>)
    requires
        b.len() == 32,
    ensures
        b == b.subrange(0, 8) + b.subrange(8, 16) + b.subrange(16, 24) + b.subrange(24, 32),
{
    assert(b =~= b.subrange(0, 8) + b.subrange(8, 16) + b.subrange(16, 24) + b.subrange(24, 32));
}

/// Turning four words into a key and the key back into words gives the same words.
pub proof fn lemma_words_roundtrip(w: Seq<u64>)
    requires
        w.len() == 4,
    ensures
        bytes_of_words(w).len() == 32,
        words_of(bytes_of_words(w)) == w,
{
    let b = bytes_of_words(w);
    lemma_pow256_8();
    lemma_be_bytes_len(w[0] as nat, 8);
    lemma_be_bytes_len(w[1] as nat, 8);
    lemma_be_bytes_len(w[2] as nat, 8);
    lemma_be_bytes_len(w[3] as nat, 8);
    assert forall|i: int| 0 <= i < 4 implies #[trigger] words_of(b)[i] == w[i] by {
        assert(b.subrange(8 * i, 8 * i + 8) =~= be_bytes(w[i] as nat, 8));
        lemma_be_value_of_bytes(w[i] as nat, 8);
    }
    assert(words_of(b) =~= w);
}

/// Turning a key's bytes into words and the words back into bytes gives the same bytes.
pub proof fn lemma_bytes_roundtrip(b: Seq<u8>)
    requires
        b.len() == 32,
    ensures
        bytes_of_words(words_of(b)) == b,
{
    let w = words_of(b);
    lemma_words_fit(b);
    assert forall|i: int| 0 <= i < 4 implies #[trigger] be_bytes(w[i] as nat, 8) == b.subrange(
        8 * i,
        8 * i + 8,
    ) by {
        lemma_bytes_of_be_value(b.subrange(8 * i, 8 * i + 8));
    }
    assert(be_bytes(w[0] as nat, 8) == b.subrange(0, 8));
    assert(be_bytes(w[1] as nat, 8) == b.subrange(8, 16));
    assert(be_bytes(w[2] as nat, 8) == b.subrange(16, 24));
    assert(be_bytes(w[3] as nat, 8) == b.subrange(24, 32));
    lemma_split_32(b);
}

/// The same as `lemma_words_roundtrip`, for signed words.
pub proof fn lemma_signed_words_roundtrip(w: Seq<i64>)
    requires
        w.len() == 4,
    ensures
        bytes_of_signed_words(w).len() == 32,
        signed_words_of(bytes_of_signed_words(w)) == w,
{
    let u = Seq::new(4, |i: int| bits_of_i64(w[i] as int) as u64);
    lemma_words_roundtrip(u);
    let b = bytes_of_signed_words(w);
    assert forall|i: int| 0 <= i < 4 implies #[trigger] signed_words_of(b)[i] == w[i] by {
        assert(words_of(b)[i] == u[i]);
        lemma_words_fit(b);
    }
    assert(signed_words_of(b) =~= w);
}

/// The same as `lemma_bytes_roundtrip`, for signed words.
pub proof fn lemma_signed_bytes_roundtrip(b: Seq<u8>)
    requires
        b.len() == 32,
    ensures
        bytes_of_signed_words(signed_words_of(b)) == b,
{
    lemma_words_fit(b);
    let s = signed_words_of(b);
    assert(Seq::new(4, |i: int| bits_of_i64(s[i] as int) as u64) =~= words_of(b));
    lemma_bytes_roundtrip(b);
}

/// A key written in Base58 reads back as the same key.
pub proof fn lemma_base58_roundtrip(k: Key, text: Seq<char>, r: Result<Key, KeyError>)
    requires
        base58_bytes(text) == Some(k@),
        Key::from_base58_outcome(text, r),
    ensures
        r matches Ok(k2) && k2@ == k@,
{
}

/// A key written as Base64 text reads back as the same key.
pub proof fn lemma_base64_roundtrip(k: Key, text: Seq<char>, r: Result<Key, KeyError>)
    requires
        crate::base64::base64_bytes(text) == Some(k@),
        Key::from_base64_outcome(text, r),
    ensures
        r matches Ok(k2) && k2@ == k@,
{
}

/// Calls `rand::random::<u64>()`. Nothing is promised of the number: it is random.
#[verifier::external_body]
fn random_u64() -> u64 {
    rand::random::<u64>()
}

} // verus!
