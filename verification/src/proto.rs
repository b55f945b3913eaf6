//! The objects that nodes exchange and store, and their byte layout.
use vstd::prelude::*;
use crate::base58::{base58_bytes, base58_text, bs58_decode, bs58_encode};
use crate::wire::{
    enc_bytes, enc_uuid, lemma_parse_bytes_enc, lemma_parse_fixed_at, lemma_parse_uuid_enc,
    parse_bytes, parse_fixed, parse_uuid, push_all, read_bytes, read_fixed, read_uuid, write_bytes,
    write_uuid,
};

verus! {

/// The 32-byte identifier of an object.
#[derive(Clone, Copy, Debug)]
pub struct Hash {
    pub bytes: [u8; 32],
}

/// Why an object could not be read or made.
#[derive(Debug, Clone, Copy, PartialEq, Eq, Structural)]
pub enum ProtoError {
    /// The bytes do not hold an object of the expected layout.
    Malformed,
    /// A hash is 32 bytes; this many were given.
    WrongLength(usize),
    /// The text is no Base58 text.
    InvalidBase58,
    /// The keypair could not sign.
    SigningFailed,
    /// The bytes encode no public key.
    InvalidPublicKey,
    /// The path names no file.
    InvalidFileName,
}

/// A time, in seconds since the Unix epoch.
pub type UnixTimestamp = u64;

/// An object of any type: the type's identifier and the object's bytes.
#[derive(Debug)]
pub struct TypedObject {
    pub uuid: u128,
    pub data: Vec<u8>,
}

/// What a `TypedObject` holds.
pub struct TypedObjectV {
    pub uuid: u128,
    pub data: Seq<u8>,
}

impl View for TypedObject {
    type V = TypedObjectV;

    open spec fn view(&self) -> TypedObjectV {
        TypedObjectV { uuid: self.uuid, data: self.data@ }
    }
}

/// A signature's bytes.
#[derive(Debug)]
pub struct Signature {
    pub bytes: Vec<u8>,
}

/// A public key, in the form in which it travels.
#[derive(Debug)]
pub struct SerializablePublicKey {
    pub key: Vec<u8>,
}

/// An object with a signature over its bytes.
#[derive(Debug)]
pub struct SignedObject {
    pub object: TypedObject,
    pub signature: Signature,
}

pub struct SignedObjectV {
    pub object: TypedObjectV,
    pub signature: Seq<u8>,
}

impl View for SignedObject {
    type V = SignedObjectV;

    open spec fn view(&self) -> SignedObjectV {
        SignedObjectV { object: self.object@, signature: self.signature.bytes@ }
    }
}

/// A file: its name and content.
#[derive(Debug)]
pub struct PlainFileObject {
    pub name: String,
    pub content: Vec<u8>,
}

pub struct PlainFileObjectV {
    pub name: Seq<char>,
    pub content: Seq<u8>,
}

impl View for PlainFileObject {
    type V = PlainFileObjectV;

    open spec fn view(&self) -> PlainFileObjectV {
        PlainFileObjectV { name: self.name@, content: self.content@ }
    }
}

/// An object that holds nothing.
#[derive(Debug, Clone, Copy)]
pub struct EmptyObject {}

/// The outcome of a request.
#[derive(Debug, Clone, Copy)]
pub struct ResultObject {
    pub result: Result<(), ()>,
}

/// A query wrapped around another object.
#[derive(Debug)]
pub struct QueryObject {
    pub query_object: TypedObject,
}

pub struct QueryObjectV {
    pub query_object: TypedObjectV,
}

impl View for QueryObject {
    type V = QueryObjectV;

    open spec fn view(&self) -> QueryObjectV {
        QueryObjectV { query_object: self.query_object@ }
    }
}

/// A query for the object with an identifier.
#[derive(Debug, Clone, Copy)]
pub struct SimpleIDQuery {
    pub id: Hash,
}

/// A request to delete an object, with the key that must have signed it.
#[derive(Debug)]
pub struct DeleteObjectQuery {
    pub id: Hash,
    pub verification_key_ed25519: SerializablePublicKey,
}

pub struct DeleteObjectQueryV {
    pub id: Seq<u8>,
    pub verification_key_ed25519: Seq<u8>,
}

impl View for DeleteObjectQuery {
    type V = DeleteObjectQueryV;

    open spec fn view(&self) -> DeleteObjectQueryV {
        DeleteObjectQueryV {
            id: self.id.bytes@,
            verification_key_ed25519: self.verification_key_ed25519.key@,
        }
    }
}

/// An object pinned to another, with an optional relation.
#[derive(Debug)]
pub struct PinObject {
    pub pinned_id: Hash,
    pub relation: Option<Hash>,
    pub object: TypedObject,
}

pub struct PinObjectV {
    pub pinned_id: Seq<u8>,
    pub relation: Option<Seq<u8>>,
    pub object: TypedObjectV,
}

/// The bytes of an optional hash.
pub open spec fn opt_hash_view(h: Option<Hash>) -> Option<Seq<u8>> {
    match h {
        Some(h) => Some(h.bytes@),
        None => None,
    }
}

impl View for PinObject {
    type V = PinObjectV;

    open spec fn view(&self) -> PinObjectV {
        PinObjectV {
            pinned_id: self.pinned_id.bytes@,
            relation: opt_hash_view(self.relation),
            object: self.object@,
        }
    }
}

/// A query for pins.
#[derive(Debug)]
pub struct PinQuery {
    pub pinned_id: Option<Hash>,
    pub relation: Option<Hash>,
    pub object: TypedObject,
}

pub struct PinQueryV {
    pub pinned_id: Option<Seq<u8>>,
    pub relation: Option<Seq<u8>>,
    pub object: TypedObjectV,
}

impl View for PinQuery {
    type V = PinQueryV;

    open spec fn view(&self) -> PinQueryV {
        PinQueryV {
            pinned_id: opt_hash_view(self.pinned_id),
            relation: opt_hash_view(self.relation),
            object: self.object@,
        }
    }
}

/// A signed object shared within a group.
#[derive(Debug)]
pub struct GroupObject {
    pub group_id: Hash,
    pub object: SignedObject,
}

/// Who may access a group, and until when.
#[derive(Debug)]
pub struct GroupAccessBinding {
    pub group_id: Hash,
    pub recipient_id: Hash,
    pub revocation_date: UnixTimestamp,
}

/// An access binding signed by the group's owner.
#[derive(Debug)]
pub struct GroupAccessToken {
    pub binding: GroupAccessBinding,
    pub group_owner_signature: Signature,
}

/// A group's definition.
#[derive(Debug)]
pub struct GroupDefinition {
    pub group_id: Hash,
    pub owner_id: Hash,
    pub parent_id: Hash,
    pub parent_membership_proof: GroupAccessToken,
}

/// A group: its definition and a signature over it.
#[derive(Debug)]
pub struct UserGroup {
    pub definition: GroupDefinition,
    pub signature: Signature,
}

impl TypedObject {
    pub const UUID: u128 = 0x0193a7be_425b_7158_8677_2dfdb28d3b00;
}

impl SignedObject {
    pub const UUID: u128 = 0x0193a7bf_fb8f_7fdc_8be6_02d3a3cc7eb1;
}

impl GroupObject {
    pub const UUID: u128 = 0x0193a7c0_1cb7_72e8_97cd_e84c15925233;
}

impl PlainFileObject {
    pub const UUID: u128 = 0x0193a7c0_3ad3_707c_897b_f23b30400c69;
}

impl EmptyObject {
    pub const UUID: u128 = 0x0193a7c0_5e33_7957_b34f_7ec0c4aa27f4;
}

/// The identifier that a typed object made by `TypedObject::empty` carries: the sixteen bytes
/// 6, 0, ..., 0, read most significant first.
pub const EMPTY_OBJECT_ID: u128 = 0x0600_0000_0000_0000_0000_0000_0000_0000;

impl QueryObject {
    pub const UUID: u128 = 0x0193a7c0_800f_7bba_9524_0244e86fd5dc;
}

impl SimpleIDQuery {
    pub const UUID: u128 = 0x0193a7c0_9cb7_7184_844e_42b5a1bf999e;
}

impl ResultObject {
    pub const UUID: u128 = 0x0193a7c0_be9b_72fa_b216_fb91814cba4f;
}

impl DeleteObjectQuery {
    pub const UUID: u128 = 0x0193b1a3_0b17_73a4_941c_5c79ac9a3780;
}

impl PinObject {
    pub const UUID: u128 = 0x019418f0_c213_797f_be97_732154fcff12;
}

impl PinQuery {
    pub const UUID: u128 = 0x01942cf4_6b0b_7c82_aff3_5b5fade8d421;
}

// ---------------------------------------------------------------- layout

/// The layout of a typed object: its identifier, then its bytes.
pub open spec fn enc_typed(t: TypedObjectV) -> Seq<u8> {
    enc_uuid(t.uuid) + enc_bytes(t.data)
}

/// What reading at `pos` gives: the value and the position after it, where the bytes hold one.
pub open spec fn parse_typed_at(b: Seq<u8>, pos: int) -> Option<(TypedObjectV, int)> {
    match parse_uuid(b, pos) {
        Some((u, p)) => match parse_bytes(b, p) {
            Some((d, q)) => Some((TypedObjectV { uuid: u, data: d }, q)),
            None => None,
        },
        None => None,
    }
}

/// The layout of an optional hash: a tag byte, then the hash when there is one.
pub open spec fn enc_opt_hash(h: Option<Seq<u8>>) -> Seq<u8> {
    match h {
        None => seq![0u8],
        Some(b) => seq![1u8] + b,
    }
}

/// What reading at `pos` gives: the value and the position after it, where the bytes hold one.
pub open spec fn parse_opt_hash(b: Seq<u8>, pos: int) -> Option<(Option<Seq<u8>>, int)> {
    match parse_fixed(b, pos, 1) {
        Some((t, p)) => if t[0] == 0 {
            Some((None, p))
        } else if t[0] == 1 {
            match parse_fixed(b, p, 32) {
                Some((h, q)) => Some((Some(h), q)),
                None => None,
            }
        } else {
            None
        },
        None => None,
    }
}

/// The layout of the value.
pub open spec fn enc_signed(s: SignedObjectV) -> Seq<u8> {
    enc_typed(s.object) + enc_bytes(s.signature)
}

/// What reading at `pos` gives: the value and the position after it, where the bytes hold one.
pub open spec fn parse_signed_at(b: Seq<u8>, pos: int) -> Option<(SignedObjectV, int)> {
    match parse_typed_at(b, pos) {
        Some((o, p)) => match parse_bytes(b, p) {
            Some((s, q)) => Some((SignedObjectV { object: o, signature: s }, q)),
            None => None,
        },
        None => None,
    }
}

/// The layout of the value.
pub open spec fn enc_plain_file(f: PlainFileObjectV) -> Seq<u8> {
    enc_bytes(vstd::utf8::encode_utf8(f.name)) + enc_bytes(f.content)
}

/// What reading at `pos` gives: the value and the position after it, where the bytes hold one.
pub open spec fn parse_plain_file_at(b: Seq<u8>, pos: int) -> Option<(PlainFileObjectV, int)> {
    match parse_bytes(b, pos) {
        Some((n, p)) => if vstd::utf8::valid_utf8(n) {
            match parse_bytes(b, p) {
                Some((c, q)) => Some(
                    (PlainFileObjectV { name: vstd::utf8::decode_utf8(n), content: c }, q),
                ),
                None => None,
            }
        } else {
            None
        },
        None => None,
    }
}

/// The layout of the value.
pub open spec fn enc_delete_query(d: DeleteObjectQueryV) -> Seq<u8> {
    d.id + enc_bytes(d.verification_key_ed25519)
}

/// What reading at `pos` gives: the value and the position after it, where the bytes hold one.
pub open spec fn parse_delete_query_at(b: Seq<u8>, pos: int) -> Option<(DeleteObjectQueryV, int)> {
    match parse_fixed(b, pos, 32) {
        Some((h, p)) => match parse_bytes(b, p) {
            Some((k, q)) => Some((DeleteObjectQueryV { id: h, verification_key_ed25519: k }, q)),
            None => None,
        },
        None => None,
    }
}

/// The layout of an outcome: the variant's index as a 32-bit little-endian integer.
pub open spec fn enc_result(r: Result<(), ()>) -> Seq<u8> {
    match r {
        Ok(_) => seq![0u8, 0u8, 0u8, 0u8],
        Err(_) => seq![1u8, 0u8, 0u8, 0u8],
    }
}

/// What reading at `pos` gives: the value and the position after it, where the bytes hold one.
pub open spec fn parse_result_at(b: Seq<u8>, pos: int) -> Option<(Result<(), ()>, int)> {
    match parse_fixed(b, pos, 4) {
        Some((t, p)) => if t == seq![0u8, 0u8, 0u8, 0u8] {
            Some((Ok(()), p))
        } else if t == seq![1u8, 0u8, 0u8, 0u8] {
            Some((Err(()), p))
        } else {
            None
        },
        None => None,
    }
}

/// The layout of the value.
pub open spec fn enc_pin(p: PinObjectV) -> Seq<u8> {
    p.pinned_id + enc_opt_hash(p.relation) + enc_typed(p.object)
}

/// What reading at `pos` gives: the value and the position after it, where the bytes hold one.
pub open spec fn parse_pin_at(b: Seq<u8>, pos: int) -> Option<(PinObjectV, int)> {
    match parse_fixed(b, pos, 32) {
        Some((h, p)) => match parse_opt_hash(b, p) {
            Some((r, q)) => match parse_typed_at(b, q) {
                Some((o, e)) => Some((PinObjectV { pinned_id: h, relation: r, object: o }, e)),
                None => None,
            },
            None => None,
        },
        None => None,
    }
}

/// The layout of the value.
pub open spec fn enc_pin_query(p: PinQueryV) -> Seq<u8> {
    enc_opt_hash(p.pinned_id) + enc_opt_hash(p.relation) + enc_typed(p.object)
}

/// What reading at `pos` gives: the value and the position after it, where the bytes hold one.
pub open spec fn parse_pin_query_at(b: Seq<u8>, pos: int) -> Option<(PinQueryV, int)> {
    match parse_opt_hash(b, pos) {
        Some((h, p)) => match parse_opt_hash(b, p) {
            Some((r, q)) => match parse_typed_at(b, q) {
                Some((o, e)) => Some((PinQueryV { pinned_id: h, relation: r, object: o }, e)),
                None => None,
            },
            None => None,
        },
        None => None,
    }
}

} // verus!

verus! {

impl Clone for TypedObject {
    fn clone(&self) -> (r: Self)
        ensures
            r@ == self@,
    {
        let mut data: Vec<u8> = Vec::new();
        push_all(&mut data, self.data.as_slice());
        proof {
            assert(data@ =~= self.data@);
        }
        TypedObject { uuid: self.uuid, data }
    }
}

/// The hash of 32 given bytes.
pub fn hash_of_bytes(b: &[u8]) -> (h: Hash)
    requires
        b@.len() == 32,
    ensures
        h.bytes@ == b@,
{
    let mut out: [u8; 32] = [0u8; 32];
    let mut i: usize = 0;
    while i < 32
        invariant
            i <= 32,
            b@.len() == 32,
            forall|j: int| 0 <= j < i ==> out@[j] == b@[j],
        decreases 32 - i,
    {
        out[i] = b[i];
        i = i + 1;
    }
    proof {
        assert(out@ =~= b@);
    }
    Hash { bytes: out }
}

fn write_hash(out: &mut Vec<u8>, h: &Hash)
    ensures
        final(out)@ == old(out)@ + h.bytes@,
{
    push_all(out, h.bytes.as_slice());
}

fn write_opt_hash(out: &mut Vec<u8>, h: &Option<Hash>)
    ensures
        final(out)@ == old(out)@ + enc_opt_hash(opt_hash_view(*h)),
{
    match h {
        None => {
            out.push(0u8);
            proof {
                assert(out@ =~= old(out)@ + enc_opt_hash(opt_hash_view(*h)));
            }
        },
        Some(h) => {
            out.push(1u8);
            write_hash(out, h);
            proof {
                assert(out@ =~= old(out)@ + enc_opt_hash(opt_hash_view(Some(*h))));
            }
        },
    }
}

fn read_hash(b: &[u8], pos: usize) -> (r: Option<(Hash, usize)>)
    ensures
        match r {
            Some((h, p)) => parse_fixed(b@, pos as int, 32) == Some((h.bytes@, p as int)),
            None => parse_fixed(b@, pos as int, 32) is None,
        },
{
    match read_fixed(b, pos, 32) {
        None => None,
        Some((v, p)) => Some((hash_of_bytes(v.as_slice()), p)),
    }
}

fn read_opt_hash(b: &[u8], pos: usize) -> (r: Option<(Option<Hash>, usize)>)
    ensures
        match r {
            Some((h, p)) => parse_opt_hash(b@, pos as int) == Some((opt_hash_view(h), p as int)),
            None => parse_opt_hash(b@, pos as int) is None,
        },
{
    match read_fixed(b, pos, 1) {
        None => None,
        Some((t, p)) => {
            if t[0] == 0 {
                Some((None, p))
            } else if t[0] == 1 {
                match read_hash(b, p) {
                    None => None,
                    Some((h, q)) => Some((Some(h), q)),
                }
            } else {
                None
            }
        },
    }
}

fn write_typed(out: &mut Vec<u8>, t: &TypedObject)
    ensures
        final(out)@ == old(out)@ + enc_typed(t@),
{
    write_uuid(out, t.uuid);
    write_bytes(out, t.data.as_slice());
    proof {
        assert(out@ =~= old(out)@ + enc_typed(t@));
    }
}

fn read_typed(b: &[u8], pos: usize) -> (r: Option<(TypedObject, usize)>)
    ensures
        match r {
            Some((t, p)) => parse_typed_at(b@, pos as int) == Some((t@, p as int)),
            None => parse_typed_at(b@, pos as int) is None,
        },
{
    match read_uuid(b, pos) {
        None => None,
        Some((u, p)) => match read_bytes(b, p) {
            None => None,
            Some((d, q)) => Some((TypedObject { uuid: u, data: d }, q)),
        },
    }
}

/// Calls `String::from_utf8` and turns its error into `None`. Trusted, as std documents it:
/// the bytes give a string exactly when they are valid UTF-8, and the string holds the
/// characters they encode.
/// Whether the bytes are valid UTF-8.
pub(crate) fn utf8_valid(b: &[u8]) -> (r: bool)
    ensures
        r == vstd::utf8::valid_utf8(b@),
{
    string_from_utf8(vstd::slice::slice_to_vec(b)).is_some()
}

/// Calls `String::from_utf8(v)`, with its error turned into `None`. Trusted: as std documents
/// it, it succeeds exactly on valid UTF-8, and the string then holds the decoded characters.
#[verifier::external_body]
fn string_from_utf8(v: Vec<u8>) -> (r: Option<String>)
    ensures
        match r {
            Some(s) => vstd::utf8::valid_utf8(v@) && s@ == vstd::utf8::decode_utf8(v@),
            None => !vstd::utf8::valid_utf8(v@),
        },
{
    String::from_utf8(v).ok()
}

impl TypedObject {
    /// The object's bytes in the layout in which objects travel and are stored.
    pub fn to_bytes(&self) -> (r: Vec<u8>)
        ensures
            r@ == enc_typed(self@),
    {
        let mut out: Vec<u8> = Vec::new();
        write_typed(&mut out, self);
        proof {
            assert(out@ =~= enc_typed(self@));
        }
        out
    }

    /// Reads a typed object from the front of `value`; bytes after it are ignored.
    pub fn try_from_bytes(value: &Vec<u8>) -> (r: Result<TypedObject, ProtoError>)
        ensures
            match r {
                Ok(t) => parse_typed_at(value@, 0) matches Some((v, _)) && v == t@,
                Err(e) => parse_typed_at(value@, 0) is None && e == ProtoError::Malformed,
            },
    {
        match read_typed(value.as_slice(), 0) {
            Some((t, _)) => Ok(t),
            None => Err(ProtoError::Malformed),
        }
    }

    /// The identifier of the type `TypedObject` itself (not that of the object it holds).
    pub fn get_uuid(&self) -> (r: u128)
        ensures
            r == TypedObject::UUID,
    {
        TypedObject::UUID
    }

    /// The typed object that stands for "nothing": the identifier `EMPTY_OBJECT_ID`, whose
    /// bytes are 6 followed by fifteen zeros, and no data (an empty object takes no bytes).
    pub fn empty() -> (r: TypedObject)
        ensures
            r.uuid == EMPTY_OBJECT_ID,
            crate::be_bytes::be_bytes(r.uuid as nat, 16) == seq![6u8] + Seq::new(15, |i: int| 0u8),
            r.data@ == Seq::<u8>::empty(),
    {
        proof {
            reveal_with_fuel(crate::be_bytes::be_bytes, 17);
            assert(crate::be_bytes::be_bytes(EMPTY_OBJECT_ID as nat, 16) =~= seq![6u8] + Seq::new(
                15,
                |i: int| 0u8,
            ));
        }
        TypedObject { uuid: EMPTY_OBJECT_ID, data: Vec::new() }
    }
}

} // verus!

verus! {

impl SignedObject {
    /// The identifier of this object type.
    pub fn get_type_uuid(&self) -> (r: u128)
        ensures
            r == SignedObject::UUID,
    {
        SignedObject::UUID
    }

    /// The object wrapped as a typed object.
    pub fn into_typed(&self) -> (t: TypedObject)
        ensures
            t.uuid == SignedObject::UUID,
            t.data@ == enc_signed(self@),
    {
        let mut out: Vec<u8> = Vec::new();
        write_typed(&mut out, &self.object);
        write_bytes(&mut out, self.signature.bytes.as_slice());
        proof {
            assert(out@ =~= enc_signed(self@));
        }
        TypedObject { uuid: SignedObject::UUID, data: out }
    }

    /// Reads the object from the bytes of a typed object (bytes after it are ignored).
    pub fn try_from_typed(t: &TypedObject) -> (r: Result<SignedObject, ProtoError>)
        ensures
            match r {
                Ok(s) => parse_signed_at(t.data@, 0) matches Some((v, _)) && v == s@,
                Err(e) => parse_signed_at(t.data@, 0) is None && e == ProtoError::Malformed,
            },
    {
        let b = t.data.as_slice();
        match read_typed(b, 0) {
            None => Err(ProtoError::Malformed),
            Some((o, p)) => match read_bytes(b, p) {
                None => Err(ProtoError::Malformed),
                Some((s, _)) => Ok(SignedObject { object: o, signature: Signature { bytes: s } }),
            },
        }
    }
}

impl PlainFileObject {
    /// The file at `path`, whose bytes are `content`: it is named by the last component of the
    /// path; refused where the path has none.
    pub fn try_from_path(path: &str, content: Vec<u8>) -> (r: Result<PlainFileObject, ProtoError>)
        ensures
            match crate::paths::file_name_of(path@) {
                Some(n) => r matches Ok(f) && f.name@ == n && f.content@ == content@,
                None => r == Err::<PlainFileObject, ProtoError>(ProtoError::InvalidFileName),
            },
    {
        match crate::paths::path_file_name(path) {
            Some(name) => Ok(PlainFileObject { name, content }),
            None => Err(ProtoError::InvalidFileName),
        }
    }

    /// The identifier of this object type.
    pub fn get_type_uuid(&self) -> (r: u128)
        ensures
            r == PlainFileObject::UUID,
    {
        PlainFileObject::UUID
    }

    /// The object wrapped as a typed object.
    pub fn into_typed(&self) -> (t: TypedObject)
        ensures
            t.uuid == PlainFileObject::UUID,
            t.data@ == enc_plain_file(self@),
    {
        let mut out: Vec<u8> = Vec::new();
        write_bytes(&mut out, self.name.as_str().as_bytes());
        write_bytes(&mut out, self.content.as_slice());
        proof {
            assert(out@ =~= enc_plain_file(self@));
        }
        TypedObject { uuid: PlainFileObject::UUID, data: out }
    }

    /// Reads the object from the bytes of a typed object (bytes after it are ignored).
    pub fn try_from_typed(t: &TypedObject) -> (r: Result<PlainFileObject, ProtoError>)
        ensures
            match r {
                Ok(f) => parse_plain_file_at(t.data@, 0) matches Some((v, _)) && v == f@,
                Err(e) => parse_plain_file_at(t.data@, 0) is None && e == ProtoError::Malformed,
            },
    {
        let b = t.data.as_slice();
        match read_bytes(b, 0) {
            None => Err(ProtoError::Malformed),
            Some((n, p)) => match string_from_utf8(n) {
                None => Err(ProtoError::Malformed),
                Some(name) => match read_bytes(b, p) {
                    None => Err(ProtoError::Malformed),
                    Some((c, _)) => Ok(PlainFileObject { name, content: c }),
                },
            },
        }
    }
}

impl EmptyObject {
    /// The identifier of this object type.
    pub fn get_type_uuid(&self) -> (r: u128)
        ensures
            r == EmptyObject::UUID,
    {
        EmptyObject::UUID
    }

    /// An empty object has no bytes.
    pub fn into_typed(&self) -> (t: TypedObject)
        ensures
            t.uuid == EmptyObject::UUID,
            t.data@ == Seq::<u8>::empty(),
    {
        TypedObject { uuid: EmptyObject::UUID, data: Vec::new() }
    }
}

impl ResultObject {
    /// The identifier of this object type.
    pub fn get_type_uuid(&self) -> (r: u128)
        ensures
            r == ResultObject::UUID,
    {
        ResultObject::UUID
    }

    /// The object wrapped as a typed object.
    pub fn into_typed(&self) -> (t: TypedObject)
        ensures
            t.uuid == ResultObject::UUID,
            t.data@ == enc_result(self.result),
    {
        let mut out: Vec<u8> = Vec::new();
        match self.result {
            Ok(_) => out.push(0u8),
            Err(_) => out.push(1u8),
        }
        out.push(0u8);
        out.push(0u8);
        out.push(0u8);
        proof {
            assert(out@ =~= enc_result(self.result));
        }
        TypedObject { uuid: ResultObject::UUID, data: out }
    }

    /// Reads the object from the bytes of a typed object (bytes after it are ignored).
    pub fn try_from_typed(t: &TypedObject) -> (r: Result<ResultObject, ProtoError>)
        ensures
            match r {
                Ok(o) => parse_result_at(t.data@, 0) matches Some((v, _)) && v == o.result,
                Err(e) => parse_result_at(t.data@, 0) is None && e == ProtoError::Malformed,
            },
    {
        match read_fixed(t.data.as_slice(), 0, 4) {
            None => Err(ProtoError::Malformed),
            Some((v, _)) => {
                if v[1] != 0 || v[2] != 0 || v[3] != 0 {
                    proof {
                        assert(v@ != seq![0u8, 0u8, 0u8, 0u8]);
                        assert(v@ != seq![1u8, 0u8, 0u8, 0u8]);
                    }
                    Err(ProtoError::Malformed)
                } else if v[0] == 0 {
                    proof {
                        assert(v@ =~= seq![0u8, 0u8, 0u8, 0u8]);
                    }
                    Ok(ResultObject { result: Ok(()) })
                } else if v[0] == 1 {
                    proof {
                        assert(v@ =~= seq![1u8, 0u8, 0u8, 0u8]);
                    }
                    Ok(ResultObject { result: Err(()) })
                } else {
                    proof {
                        assert(v@ != seq![0u8, 0u8, 0u8, 0u8]);
                        assert(v@ != seq![1u8, 0u8, 0u8, 0u8]);
                    }
                    Err(ProtoError::Malformed)
                }
            },
        }
    }
}

impl QueryObject {
    /// The identifier of this object type.
    pub fn get_type_uuid(&self) -> (r: u128)
        ensures
            r == QueryObject::UUID,
    {
        QueryObject::UUID
    }

    /// The object wrapped as a typed object.
    pub fn into_typed(&self) -> (t: TypedObject)
        ensures
            t.uuid == QueryObject::UUID,
            t.data@ == enc_typed(self.query_object@),
    {
        let mut out: Vec<u8> = Vec::new();
        write_typed(&mut out, &self.query_object);
        proof {
            assert(out@ =~= enc_typed(self.query_object@));
        }
        TypedObject { uuid: QueryObject::UUID, data: out }
    }

    /// Reads the object from the bytes of a typed object (bytes after it are ignored).
    pub fn try_from_typed(t: &TypedObject) -> (r: Result<QueryObject, ProtoError>)
        ensures
            match r {
                Ok(q) => parse_typed_at(t.data@, 0) matches Some((v, _)) && v == q.query_object@,
                Err(e) => parse_typed_at(t.data@, 0) is None && e == ProtoError::Malformed,
            },
    {
        match read_typed(t.data.as_slice(), 0) {
            None => Err(ProtoError::Malformed),
            Some((o, _)) => Ok(QueryObject { query_object: o }),
        }
    }

    /// A query for the object with the identifier that `obj` asks for.
    pub fn from_simple_id_query(obj: SimpleIDQuery) -> (q: QueryObject)
        ensures
            q.query_object.uuid == SimpleIDQuery::UUID,
            q.query_object.data@ == obj.id.bytes@,
    {
        QueryObject { query_object: obj.into_typed() }
    }
}

impl SimpleIDQuery {
    /// The identifier of this object type.
    pub fn get_type_uuid(&self) -> (r: u128)
        ensures
            r == SimpleIDQuery::UUID,
    {
        SimpleIDQuery::UUID
    }

    /// The object wrapped as a typed object.
    pub fn into_typed(&self) -> (t: TypedObject)
        ensures
            t.uuid == SimpleIDQuery::UUID,
            t.data@ == self.id.bytes@,
    {
        let mut out: Vec<u8> = Vec::new();
        write_hash(&mut out, &self.id);
        proof {
            assert(out@ =~= self.id.bytes@);
        }
        TypedObject { uuid: SimpleIDQuery::UUID, data: out }
    }

    /// Reads the object from the bytes of a typed object (bytes after it are ignored).
    pub fn try_from_typed(t: &TypedObject) -> (r: Result<SimpleIDQuery, ProtoError>)
        ensures
            match r {
                Ok(q) => parse_fixed(t.data@, 0, 32) matches Some((v, _)) && v == q.id.bytes@,
                Err(e) => parse_fixed(t.data@, 0, 32) is None && e == ProtoError::Malformed,
            },
    {
        match read_hash(t.data.as_slice(), 0) {
            None => Err(ProtoError::Malformed),
            Some((h, _)) => Ok(SimpleIDQuery { id: h }),
        }
    }
}

impl DeleteObjectQuery {
    /// The identifier of this object type.
    pub fn get_type_uuid(&self) -> (r: u128)
        ensures
            r == DeleteObjectQuery::UUID,
    {
        DeleteObjectQuery::UUID
    }

    /// The object wrapped as a typed object.
    pub fn into_typed(&self) -> (t: TypedObject)
        ensures
            t.uuid == DeleteObjectQuery::UUID,
            t.data@ == enc_delete_query(self@),
    {
        let mut out: Vec<u8> = Vec::new();
        write_hash(&mut out, &self.id);
        write_bytes(&mut out, self.verification_key_ed25519.key.as_slice());
        proof {
            assert(out@ =~= enc_delete_query(self@));
        }
        TypedObject { uuid: DeleteObjectQuery::UUID, data: out }
    }

    /// Reads the object from the bytes of a typed object (bytes after it are ignored).
    pub fn try_from_typed(t: &TypedObject) -> (r: Result<DeleteObjectQuery, ProtoError>)
        ensures
            match r {
                Ok(q) => parse_delete_query_at(t.data@, 0) matches Some((v, _)) && v == q@,
                Err(e) => parse_delete_query_at(t.data@, 0) is None && e == ProtoError::Malformed,
            },
    {
        let b = t.data.as_slice();
        match read_hash(b, 0) {
            None => Err(ProtoError::Malformed),
            Some((h, p)) => match read_bytes(b, p) {
                None => Err(ProtoError::Malformed),
                Some((k, _)) => Ok(
                    DeleteObjectQuery {
                        id: h,
                        verification_key_ed25519: SerializablePublicKey { key: k },
                    },
                ),
            },
        }
    }
}

impl PinObject {
    /// The identifier of this object type.
    pub fn get_type_uuid(&self) -> (r: u128)
        ensures
            r == PinObject::UUID,
    {
        PinObject::UUID
    }

    /// The object wrapped as a typed object.
    pub fn into_typed(&self) -> (t: TypedObject)
        ensures
            t.uuid == PinObject::UUID,
            t.data@ == enc_pin(self@),
    {
        let mut out: Vec<u8> = Vec::new();
        write_hash(&mut out, &self.pinned_id);
        write_opt_hash(&mut out, &self.relation);
        write_typed(&mut out, &self.object);
        proof {
            assert(out@ =~= enc_pin(self@));
        }
        TypedObject { uuid: PinObject::UUID, data: out }
    }

    /// Reads the object from the bytes of a typed object (bytes after it are ignored).
    pub fn try_from_typed(t: &TypedObject) -> (r: Result<PinObject, ProtoError>)
        ensures
            match r {
                Ok(p) => parse_pin_at(t.data@, 0) matches Some((v, _)) && v == p@,
                Err(e) => parse_pin_at(t.data@, 0) is None && e == ProtoError::Malformed,
            },
    {
        let b = t.data.as_slice();
        match read_hash(b, 0) {
            None => Err(ProtoError::Malformed),
            Some((h, p)) => match read_opt_hash(b, p) {
                None => Err(ProtoError::Malformed),
                Some((r, q)) => match read_typed(b, q) {
                    None => Err(ProtoError::Malformed),
                    Some((o, _)) => Ok(PinObject { pinned_id: h, relation: r, object: o }),
                },
            },
        }
    }

    /// Pins the object to `pinned_id`: a new pin that holds this pin as its object.
    pub fn extend(self, pinned_id: Hash, relation: Option<Hash>) -> (r: PinObject)
        ensures
            r.pinned_id == pinned_id,
            r.relation == relation,
            r.object.uuid == PinObject::UUID,
            r.object.data@ == enc_pin(self@),
    {
        PinObject { pinned_id, relation, object: self.into_typed() }
    }
}

impl PinQuery {
    /// The identifier of this object type.
    pub fn get_type_uuid(&self) -> (r: u128)
        ensures
            r == PinQuery::UUID,
    {
        PinQuery::UUID
    }

    /// The object wrapped as a typed object.
    pub fn into_typed(&self) -> (t: TypedObject)
        ensures
            t.uuid == PinQuery::UUID,
            t.data@ == enc_pin_query(self@),
    {
        let mut out: Vec<u8> = Vec::new();
        write_opt_hash(&mut out, &self.pinned_id);
        write_opt_hash(&mut out, &self.relation);
        write_typed(&mut out, &self.object);
        proof {
            assert(out@ =~= enc_pin_query(self@));
        }
        TypedObject { uuid: PinQuery::UUID, data: out }
    }

    /// Reads the object from the bytes of a typed object (bytes after it are ignored).
    pub fn try_from_typed(t: &TypedObject) -> (r: Result<PinQuery, ProtoError>)
        ensures
            match r {
                Ok(p) => parse_pin_query_at(t.data@, 0) matches Some((v, _)) && v == p@,
                Err(e) => parse_pin_query_at(t.data@, 0) is None && e == ProtoError::Malformed,
            },
    {
        let b = t.data.as_slice();
        match read_opt_hash(b, 0) {
            None => Err(ProtoError::Malformed),
            Some((h, p)) => match read_opt_hash(b, p) {
                None => Err(ProtoError::Malformed),
                Some((r, q)) => match read_typed(b, q) {
                    None => Err(ProtoError::Malformed),
                    Some((o, _)) => Ok(PinQuery { pinned_id: h, relation: r, object: o }),
                },
            },
        }
    }
}

impl GroupObject {
    /// The identifier of this object type.
    pub fn get_type_uuid(&self) -> (r: u128)
        ensures
            r == GroupObject::UUID,
    {
        GroupObject::UUID
    }

    /// The object wrapped as a typed object.
    pub fn into_typed(&self) -> (t: TypedObject)
        ensures
            t.uuid == GroupObject::UUID,
            t.data@ == self.group_id.bytes@ + enc_signed(self.object@),
    {
        let mut out: Vec<u8> = Vec::new();
        write_hash(&mut out, &self.group_id);
        write_typed(&mut out, &self.object.object);
        write_bytes(&mut out, self.object.signature.bytes.as_slice());
        proof {
            assert(out@ =~= self.group_id.bytes@ + enc_signed(self.object@));
        }
        TypedObject { uuid: GroupObject::UUID, data: out }
    }
}

} // verus!

verus! {

impl PartialEq for Hash {
    fn eq(&self, other: &Self) -> (r: bool) {
        let mut i: usize = 0;
        while i < 32
            invariant
                i <= 32,
                forall|j: int| 0 <= j < i ==> self.bytes@[j] == other.bytes@[j],
            decreases 32 - i,
        {
            if self.bytes[i] != other.bytes[i] {
                return false;
            }
            i = i + 1;
        }
        proof {
            assert(self.bytes@ =~= other.bytes@);
        }
        true
    }
}

impl vstd::std_specs::cmp::PartialEqSpecImpl for Hash {
    open spec fn obeys_eq_spec() -> bool {
        true
    }

    open spec fn eq_spec(&self, other: &Hash) -> bool {
        self.bytes@ == other.bytes@
    }
}

impl Eq for Hash {
}

impl Hash {
    /// The hash of exactly 32 bytes; an error for any other number of bytes.
    pub fn try_from_slice(bytes: &[u8]) -> (r: Result<Hash, ProtoError>)
        ensures
            bytes@.len() == 32 ==> (r matches Ok(h) && h.bytes@ == bytes@),
            bytes@.len() != 32 ==> r == Err::<Hash, ProtoError>(
                ProtoError::WrongLength(bytes@.len() as usize),
            ),
    {
        if bytes.len() != 32 {
            return Err(ProtoError::WrongLength(bytes.len()));
        }
        Ok(hash_of_bytes(bytes))
    }

    /// The hash of exactly 32 bytes; an error for any other number of bytes.
    pub fn try_from_vec(bytes: Vec<u8>) -> (r: Result<Hash, ProtoError>)
        ensures
            bytes@.len() == 32 ==> (r matches Ok(h) && h.bytes@ == bytes@),
            bytes@.len() != 32 ==> r == Err::<Hash, ProtoError>(
                ProtoError::WrongLength(bytes@.len() as usize),
            ),
    {
        Hash::try_from_slice(bytes.as_slice())
    }

    /// The hash of 32 bytes; this never fails.
    pub fn try_from_array(bytes: &[u8; 32]) -> (r: Result<Hash, ProtoError>)
        ensures
            r matches Ok(h) && h.bytes@ == bytes@,
    {
        Ok(Hash { bytes: *bytes })
    }

    /// The identifier of a typed object: the BLAKE3 digest of the object's bytes.
    pub fn try_from_typed_object(value: &TypedObject) -> (r: Result<Hash, ProtoError>)
        ensures
            r matches Ok(h) && h.bytes@ == crate::hashing::blake3_digest(enc_typed(value@)),
    {
        let bytes = value.to_bytes();
        let digest = crate::hashing::blake3_hash(bytes.as_slice());
        Ok(Hash { bytes: digest })
    }

    /// The hash whose Base58 text is `value`: an error where `value` is no Base58 text or does
    /// not hold exactly 32 bytes.
    pub fn try_from_str(value: &str) -> (r: Result<Hash, ProtoError>)
        ensures
            Hash::from_text_outcome(value@, r),
    {
        match bs58_decode(value) {
            None => Err(ProtoError::InvalidBase58),
            Some(v) => Hash::try_from_slice(v.as_slice()),
        }
    }

    /// `r` is what reading a hash from the text `t` gives.
    pub open spec fn from_text_outcome(t: Seq<char>, r: Result<Hash, ProtoError>) -> bool {
        match base58_bytes(t) {
            None => r == Err::<Hash, ProtoError>(ProtoError::InvalidBase58),
            Some(b) => if b.len() == 32 {
                r matches Ok(h) && h.bytes@ == b
            } else {
                r == Err::<Hash, ProtoError>(ProtoError::WrongLength(b.len() as usize))
            },
        }
    }

    /// The hash's text form: its bytes in Base58.
    pub fn to_string(&self) -> (s: String)
        ensures
            s@ == base58_text(self.bytes@),
            base58_bytes(s@) == Some(self.bytes@),
    {
        bs58_encode(self.bytes.as_slice())
    }
}

/// A hash written as text reads back as the same hash.
pub proof fn lemma_hash_text_roundtrip(h: Hash, text: Seq<char>, r: Result<Hash, ProtoError>)
    requires
        base58_bytes(text) == Some(h.bytes@),
        Hash::from_text_outcome(text, r),
    ensures
        r matches Ok(h2) && h2 == h,
{
    if let Ok(h2) = r {
        assert(h2.bytes@ =~= h.bytes@);
        assert(forall|i: int| 0 <= i < 32 ==> h2.bytes@[i] == h.bytes@[i]);
        assert(h2.bytes =~= h.bytes);
    }
}

/// The spec form of `PinObject::add_pins`: the object wrapped once per pin, the first pin
/// innermost.
pub open spec fn spec_add_pins(object: TypedObjectV, pins: Seq<(Hash, Option<Hash>)>) -> TypedObjectV
    decreases pins.len(),
{
    if pins.len() == 0 {
        object
    } else {
        let inner = spec_add_pins(object, pins.drop_last());
        TypedObjectV {
            uuid: PinObject::UUID,
            data: enc_pin(
                PinObjectV {
                    pinned_id: pins.last().0.bytes@,
                    relation: opt_hash_view(pins.last().1),
                    object: inner,
                },
            ),
        }
    }
}

impl PinObject {
    /// Wraps `object` in one pin per entry of `pins`, the first pin innermost.
    pub fn add_pins(object: TypedObject, pins: Vec<(Hash, Option<Hash>)>) -> (r: TypedObject)
        ensures
            r@ == spec_add_pins(object@, pins@),
    {
        let mut object = object;
        let ghost start = object@;
        let mut i: usize = 0;
        proof {
            assert(pins@.subrange(0, 0) =~= Seq::<(Hash, Option<Hash>)>::empty());
        }
        while i < pins.len()
            invariant
                i <= pins@.len(),
                object@ == spec_add_pins(start, pins@.subrange(0, i as int)),
            decreases pins.len() - i,
        {
            let pin = PinObject { pinned_id: pins[i].0, relation: pins[i].1, object: object };
            object = pin.into_typed();
            proof {
                assert(pins@.subrange(0, i + 1).drop_last() =~= pins@.subrange(0, i as int));
            }
            i = i + 1;
        }
        proof {
            assert(pins@.subrange(0, pins@.len() as int) =~= pins@);
        }
        object
    }
}

} // verus!

verus! {

/// A byte string that can be written after its 64-bit length.
pub open spec fn fits(b: Seq<u8>) -> bool {
    b.len() < 0x1_0000_0000_0000_0000
}

/// Every byte string of a typed object can be written.
pub open spec fn typed_fits(t: TypedObjectV) -> bool {
    fits(t.data)
}

/// A typed object reads back from where it was written, whatever stands around it.
pub proof fn lemma_typed_roundtrip_at(pre: Seq<u8>, t: TypedObjectV, rest: Seq<u8>)
    requires
        typed_fits(t),
    ensures
        parse_typed_at(pre + enc_typed(t) + rest, pre.len() as int) == Some(
            (t, (pre.len() + enc_typed(t).len()) as int),
        ),
        enc_typed(t).len() == 24 + 8 + t.data.len(),
{
    let b = pre + enc_typed(t) + rest;
    lemma_parse_uuid_enc(pre, t.uuid, enc_bytes(t.data) + rest);
    assert(b =~= pre + enc_uuid(t.uuid) + (enc_bytes(t.data) + rest));
    let pre2 = pre + enc_uuid(t.uuid);
    lemma_parse_bytes_enc(pre2, t.data, rest);
    assert(b =~= pre2 + enc_bytes(t.data) + rest);
}

/// The bytes of a typed object read back as the same object.
pub proof fn lemma_typed_bytes_roundtrip(t: TypedObjectV, rest: Seq<u8>)
    requires
        typed_fits(t),
    ensures
        parse_typed_at(enc_typed(t) + rest, 0) == Some((t, enc_typed(t).len() as int)),
{
    lemma_typed_roundtrip_at(Seq::empty(), t, rest);
    assert(Seq::<u8>::empty() + enc_typed(t) + rest =~= enc_typed(t) + rest);
}

proof fn lemma_opt_hash_roundtrip_at(pre: Seq<u8>, h: Option<Seq<u8>>, rest: Seq<u8>)
    requires
        h matches Some(x) ==> x.len() == 32,
    ensures
        parse_opt_hash(pre + enc_opt_hash(h) + rest, pre.len() as int) == Some(
            (h, (pre.len() + enc_opt_hash(h).len()) as int),
        ),
{
    let b = pre + enc_opt_hash(h) + rest;
    match h {
        None => {
            assert(b.subrange(pre.len() as int, pre.len() + 1int) =~= seq![0u8]);
        },
        Some(x) => {
            assert(b.subrange(pre.len() as int, pre.len() + 1int) =~= seq![1u8]);
            lemma_parse_fixed_at(pre + seq![1u8], x, rest);
            assert(b =~= pre + seq![1u8] + x + rest);
        },
    }
}

/// A signed object reads back from its bytes.
pub proof fn lemma_signed_roundtrip(s: SignedObjectV, rest: Seq<u8>)
    requires
        typed_fits(s.object),
        fits(s.signature),
    ensures
        parse_signed_at(enc_signed(s) + rest, 0) matches Some((v, _)) && v == s,
{
    let b = enc_signed(s) + rest;
    lemma_typed_roundtrip_at(Seq::empty(), s.object, enc_bytes(s.signature) + rest);
    assert(b =~= Seq::<u8>::empty() + enc_typed(s.object) + (enc_bytes(s.signature) + rest));
    lemma_parse_bytes_enc(enc_typed(s.object), s.signature, rest);
}

/// A file reads back from its bytes.
pub proof fn lemma_plain_file_roundtrip(f: PlainFileObjectV, rest: Seq<u8>)
    requires
        fits(vstd::utf8::encode_utf8(f.name)),
        fits(f.content),
    ensures
        parse_plain_file_at(enc_plain_file(f) + rest, 0) matches Some((v, _)) && v == f,
{
    let n = vstd::utf8::encode_utf8(f.name);
    let b = enc_plain_file(f) + rest;
    lemma_parse_bytes_enc(Seq::empty(), n, enc_bytes(f.content) + rest);
    assert(b =~= Seq::<u8>::empty() + enc_bytes(n) + (enc_bytes(f.content) + rest));
    lemma_parse_bytes_enc(enc_bytes(n), f.content, rest);
    vstd::utf8::encode_utf8_valid_utf8(f.name);
    vstd::utf8::encode_utf8_decode_utf8(f.name);
}

/// A delete request reads back from its bytes.
pub proof fn lemma_delete_query_roundtrip(d: DeleteObjectQueryV, rest: Seq<u8>)
    requires
        d.id.len() == 32,
        fits(d.verification_key_ed25519),
    ensures
        parse_delete_query_at(enc_delete_query(d) + rest, 0) matches Some((v, _)) && v == d,
{
    let b = enc_delete_query(d) + rest;
    lemma_parse_fixed_at(Seq::empty(), d.id, enc_bytes(d.verification_key_ed25519) + rest);
    assert(b =~= Seq::<u8>::empty() + d.id + (enc_bytes(d.verification_key_ed25519) + rest));
    lemma_parse_bytes_enc(d.id, d.verification_key_ed25519, rest);
}

/// An outcome reads back from its bytes.
pub proof fn lemma_result_roundtrip(r: Result<(), ()>, rest: Seq<u8>)
    ensures
        parse_result_at(enc_result(r) + rest, 0) matches Some((v, _)) && v == r,
{
    assert((enc_result(r) + rest).subrange(0, 4) =~= enc_result(r));
    match r {
        Ok(u) => {
            assert(u == ());
        },
        Err(u) => {
            assert(u == ());
            assert(enc_result(r)[0] != seq![0u8, 0u8, 0u8, 0u8][0]);
        },
    }
}

/// A pin reads back from its bytes.
pub proof fn lemma_pin_roundtrip(p: PinObjectV, rest: Seq<u8>)
    requires
        p.pinned_id.len() == 32,
        p.relation matches Some(x) ==> x.len() == 32,
        typed_fits(p.object),
    ensures
        parse_pin_at(enc_pin(p) + rest, 0) matches Some((v, _)) && v == p,
{
    let b = enc_pin(p) + rest;
    let o = enc_opt_hash(p.relation);
    lemma_parse_fixed_at(Seq::empty(), p.pinned_id, o + enc_typed(p.object) + rest);
    assert(b =~= Seq::<u8>::empty() + p.pinned_id + (o + enc_typed(p.object) + rest));
    lemma_opt_hash_roundtrip_at(p.pinned_id, p.relation, enc_typed(p.object) + rest);
    assert(b =~= p.pinned_id + o + (enc_typed(p.object) + rest));
    lemma_typed_roundtrip_at(p.pinned_id + o, p.object, rest);
    assert(b =~= (p.pinned_id + o) + enc_typed(p.object) + rest);
}

/// A pin query reads back from its bytes.
pub proof fn lemma_pin_query_roundtrip(p: PinQueryV, rest: Seq<u8>)
    requires
        p.pinned_id matches Some(x) ==> x.len() == 32,
        p.relation matches Some(x) ==> x.len() == 32,
        typed_fits(p.object),
    ensures
        parse_pin_query_at(enc_pin_query(p) + rest, 0) matches Some((v, _)) && v == p,
{
    let b = enc_pin_query(p) + rest;
    let o1 = enc_opt_hash(p.pinned_id);
    let o2 = enc_opt_hash(p.relation);
    lemma_opt_hash_roundtrip_at(Seq::empty(), p.pinned_id, o2 + enc_typed(p.object) + rest);
    assert(b =~= Seq::<u8>::empty() + o1 + (o2 + enc_typed(p.object) + rest));
    lemma_opt_hash_roundtrip_at(o1, p.relation, enc_typed(p.object) + rest);
    assert(b =~= o1 + o2 + (enc_typed(p.object) + rest));
    lemma_typed_roundtrip_at(o1 + o2, p.object, rest);
    assert(b =~= (o1 + o2) + enc_typed(p.object) + rest);
}

} // verus!

verus! {

impl SerializablePublicKey {
    /// The form in which a public key (in its protobuf encoding) travels: its bytes after their
    /// length.
    pub fn from_public_key(pk: &[u8]) -> (r: SerializablePublicKey)
        ensures
            r.key@ == enc_bytes(pk@),
    {
        let mut key: Vec<u8> = Vec::new();
        write_bytes(&mut key, pk);
        proof {
            assert(key@ =~= enc_bytes(pk@));
        }
        SerializablePublicKey { key }
    }

    /// The protobuf encoding of the public key this holds.
    pub fn to_public_key(&self) -> (r: Result<Vec<u8>, ProtoError>)
        ensures
            match r {
                Ok(pk) => parse_bytes(self.key@, 0) matches Some((v, _)) && v == pk@,
                Err(e) => parse_bytes(self.key@, 0) is None && e == ProtoError::Malformed,
            },
    {
        match read_bytes(self.key.as_slice(), 0) {
            Some((pk, _)) => Ok(pk),
            None => Err(ProtoError::Malformed),
        }
    }
}

impl SignedObject {
    /// Signs the bytes of `object` with the keypair encoded as `keypair`.
    pub fn sign_ed25519(object: TypedObject, keypair: &[u8]) -> (r: Result<SignedObject, ProtoError>)
        ensures
            crate::identity::keypair_decodes(keypair@) ==> (r matches Ok(s) && s.object@ == object@
                && s.signature.bytes@ == crate::identity::signature_of(keypair@, enc_typed(object@))),
            !crate::identity::keypair_decodes(keypair@) ==> r == Err::<SignedObject, ProtoError>(
                ProtoError::SigningFailed,
            ),
            r matches Ok(s) ==> crate::identity::signature_check(
                crate::identity::public_key_of(keypair@),
                enc_typed(s.object@),
                s.signature.bytes@,
            ) == Some(true),
    {
        let v = object.to_bytes();
        match crate::identity::keypair_sign(keypair, v.as_slice()) {
            None => Err(ProtoError::SigningFailed),
            Some(bytes) => Ok(SignedObject { object, signature: Signature { bytes } }),
        }
    }

    /// Checks the signature against the bytes of the object and the public key `public`.
    pub fn verify_ed25519(&self, public: &SerializablePublicKey) -> (r: Result<bool, ProtoError>)
        ensures
            match parse_bytes(public.key@, 0) {
                None => r == Err::<bool, ProtoError>(ProtoError::Malformed),
                Some((pk, _)) => match crate::identity::signature_check(
                    pk,
                    enc_typed(self.object@),
                    self.signature.bytes@,
                ) {
                    None => r == Err::<bool, ProtoError>(ProtoError::InvalidPublicKey),
                    Some(b) => r == Ok::<bool, ProtoError>(b),
                },
            },
    {
        let pk = match public.to_public_key() {
            Ok(pk) => pk,
            Err(e) => return Err(e),
        };
        let msg = self.object.to_bytes();
        match crate::identity::public_key_verify(
            pk.as_slice(),
            msg.as_slice(),
            self.signature.bytes.as_slice(),
        ) {
            None => Err(ProtoError::InvalidPublicKey),
            Some(b) => Ok(b),
        }
    }
}

/// An object signed with a keypair verifies with that keypair's public key.
pub proof fn lemma_signed_verifies(kp: Seq<u8>, s: SignedObjectV, public: Seq<u8>)
    requires
        public == enc_bytes(crate::identity::public_key_of(kp)),
        crate::identity::signature_check(
            crate::identity::public_key_of(kp),
            enc_typed(s.object),
            s.signature,
        ) == Some(true),
        fits(crate::identity::public_key_of(kp)),
    ensures
        parse_bytes(public, 0) matches Some((pk, _)) && crate::identity::signature_check(
            pk,
            enc_typed(s.object),
            s.signature,
        ) == Some(true),
{
    let pk = crate::identity::public_key_of(kp);
    lemma_parse_bytes_enc(Seq::empty(), pk, Seq::empty());
    assert(Seq::<u8>::empty() + enc_bytes(pk) + Seq::<u8>::empty() =~= public);
}

} // verus!
