//! Telling a typed object's kind from its identifier and reading it as that kind.
use vstd::prelude::*;
use crate::proto::{
    enc_delete_query, enc_pin, enc_pin_query, enc_plain_file, enc_result, enc_signed, enc_typed,
    fits, lemma_delete_query_roundtrip, lemma_pin_query_roundtrip, lemma_pin_roundtrip,
    lemma_plain_file_roundtrip, lemma_result_roundtrip, lemma_signed_roundtrip,
    lemma_typed_bytes_roundtrip, parse_delete_query_at, parse_pin_at, parse_pin_query_at,
    parse_plain_file_at, parse_result_at, parse_signed_at, parse_typed_at, typed_fits,
    DeleteObjectQuery, DeleteObjectQueryV, EmptyObject, GroupObject, PinObject, PinObjectV,
    PinQuery, PinQueryV, PlainFileObject, PlainFileObjectV, ProtoError, QueryObject, QueryObjectV,
    ResultObject, SignedObject, SignedObjectV, SimpleIDQuery, TypedObject, TypedObjectV,
};
use crate::wire::parse_fixed;

verus! {

/// An object of one of the known kinds.
#[derive(Debug)]
pub enum ObjectEnum {
    Group(GroupObject),
    Signed(SignedObject),
    PlainFile(PlainFileObject),
    Typed(TypedObject),
    Empty(EmptyObject),
    DeleteObject(DeleteObjectQuery),
    SimpleIDQuery(SimpleIDQuery),
    PinQuery(PinQuery),
    Query(QueryObject),
    Result(ResultObject),
    Pin(PinObject),
}

/// What an `ObjectEnum` holds.
pub enum ObjectEnumV {
    Group(Seq<u8>, SignedObjectV),
    Signed(SignedObjectV),
    PlainFile(PlainFileObjectV),
    Typed(TypedObjectV),
    Empty,
    DeleteObject(DeleteObjectQueryV),
    SimpleIDQuery(Seq<u8>),
    PinQuery(PinQueryV),
    Query(QueryObjectV),
    Result(Result<(), ()>),
    Pin(PinObjectV),
}

impl View for ObjectEnum {
    type V = ObjectEnumV;

    open spec fn view(&self) -> ObjectEnumV {
        match self {
            ObjectEnum::Group(g) => ObjectEnumV::Group(g.group_id.bytes@, g.object@),
            ObjectEnum::Signed(s) => ObjectEnumV::Signed(s@),
            ObjectEnum::PlainFile(f) => ObjectEnumV::PlainFile(f@),
            ObjectEnum::Typed(t) => ObjectEnumV::Typed(t@),
            ObjectEnum::Empty(_) => ObjectEnumV::Empty,
            ObjectEnum::DeleteObject(d) => ObjectEnumV::DeleteObject(d@),
            ObjectEnum::SimpleIDQuery(q) => ObjectEnumV::SimpleIDQuery(q.id.bytes@),
            ObjectEnum::PinQuery(q) => ObjectEnumV::PinQuery(q@),
            ObjectEnum::Query(q) => ObjectEnumV::Query(q@),
            ObjectEnum::Result(r) => ObjectEnumV::Result(r.result),
            ObjectEnum::Pin(p) => ObjectEnumV::Pin(p@),
        }
    }
}

/// What reading a typed object as its kind gives: the kind is told by the identifier, the
/// object is read from the front of the bytes (bytes after it are ignored), and an object of an
/// unknown kind reads as an empty one.
pub open spec fn parse_typed_spec(t: TypedObjectV) -> Result<ObjectEnumV, ProtoError> {
    if t.uuid == SignedObject::UUID {
        match parse_signed_at(t.data, 0) {
            Some((v, _)) => Ok(ObjectEnumV::Signed(v)),
            None => Err(ProtoError::Malformed),
        }
    } else if t.uuid == PlainFileObject::UUID {
        match parse_plain_file_at(t.data, 0) {
            Some((v, _)) => Ok(ObjectEnumV::PlainFile(v)),
            None => Err(ProtoError::Malformed),
        }
    } else if t.uuid == EmptyObject::UUID {
        Ok(ObjectEnumV::Empty)
    } else if t.uuid == SimpleIDQuery::UUID {
        match parse_fixed(t.data, 0, 32) {
            Some((v, _)) => Ok(ObjectEnumV::SimpleIDQuery(v)),
            None => Err(ProtoError::Malformed),
        }
    } else if t.uuid == QueryObject::UUID {
        match parse_typed_at(t.data, 0) {
            Some((v, _)) => Ok(ObjectEnumV::Query(QueryObjectV { query_object: v })),
            None => Err(ProtoError::Malformed),
        }
    } else if t.uuid == ResultObject::UUID {
        match parse_result_at(t.data, 0) {
            Some((v, _)) => Ok(ObjectEnumV::Result(v)),
            None => Err(ProtoError::Malformed),
        }
    } else if t.uuid == DeleteObjectQuery::UUID {
        match parse_delete_query_at(t.data, 0) {
            Some((v, _)) => Ok(ObjectEnumV::DeleteObject(v)),
            None => Err(ProtoError::Malformed),
        }
    } else if t.uuid == PinObject::UUID {
        match parse_pin_at(t.data, 0) {
            Some((v, _)) => Ok(ObjectEnumV::Pin(v)),
            None => Err(ProtoError::Malformed),
        }
    } else if t.uuid == PinQuery::UUID {
        match parse_pin_query_at(t.data, 0) {
            Some((v, _)) => Ok(ObjectEnumV::PinQuery(v)),
            None => Err(ProtoError::Malformed),
        }
    } else {
        Ok(ObjectEnumV::Empty)
    }
}

/// Reads a typed object as the kind its identifier names. Group objects cannot be read.
pub fn parse_typed(object: TypedObject) -> (r: Result<ObjectEnum, ProtoError>)
    requires
        object.uuid != GroupObject::UUID,
    ensures
        match r {
            Ok(o) => parse_typed_spec(object@) == Ok::<ObjectEnumV, ProtoError>(o@),
            Err(e) => parse_typed_spec(object@) == Err::<ObjectEnumV, ProtoError>(e),
        },
{
    if object.uuid == SignedObject::UUID {
        match SignedObject::try_from_typed(&object) {
            Ok(v) => Ok(ObjectEnum::Signed(v)),
            Err(e) => Err(e),
        }
    } else if object.uuid == PlainFileObject::UUID {
        match PlainFileObject::try_from_typed(&object) {
            Ok(v) => Ok(ObjectEnum::PlainFile(v)),
            Err(e) => Err(e),
        }
    } else if object.uuid == EmptyObject::UUID {
        Ok(ObjectEnum::Empty(EmptyObject {}))
    } else if object.uuid == SimpleIDQuery::UUID {
        match SimpleIDQuery::try_from_typed(&object) {
            Ok(v) => Ok(ObjectEnum::SimpleIDQuery(v)),
            Err(e) => Err(e),
        }
    } else if object.uuid == QueryObject::UUID {
        match QueryObject::try_from_typed(&object) {
            Ok(v) => Ok(ObjectEnum::Query(v)),
            Err(e) => Err(e),
        }
    } else if object.uuid == ResultObject::UUID {
        match ResultObject::try_from_typed(&object) {
            Ok(v) => Ok(ObjectEnum::Result(v)),
            Err(e) => Err(e),
        }
    } else if object.uuid == DeleteObjectQuery::UUID {
        match DeleteObjectQuery::try_from_typed(&object) {
            Ok(v) => Ok(ObjectEnum::DeleteObject(v)),
            Err(e) => Err(e),
        }
    } else if object.uuid == PinObject::UUID {
        match PinObject::try_from_typed(&object) {
            Ok(v) => Ok(ObjectEnum::Pin(v)),
            Err(e) => Err(e),
        }
    } else if object.uuid == PinQuery::UUID {
        match PinQuery::try_from_typed(&object) {
            Ok(v) => Ok(ObjectEnum::PinQuery(v)),
            Err(e) => Err(e),
        }
    } else {
        Ok(ObjectEnum::Empty(EmptyObject {}))
    }
}

/// The identifier of each kind of object.
pub open spec fn kind_uuid(o: ObjectEnumV) -> u128 {
    match o {
        ObjectEnumV::Group(..) => GroupObject::UUID,
        ObjectEnumV::Signed(_) => SignedObject::UUID,
        ObjectEnumV::PlainFile(_) => PlainFileObject::UUID,
        ObjectEnumV::Typed(_) => TypedObject::UUID,
        ObjectEnumV::Empty => EmptyObject::UUID,
        ObjectEnumV::DeleteObject(_) => DeleteObjectQuery::UUID,
        ObjectEnumV::SimpleIDQuery(_) => SimpleIDQuery::UUID,
        ObjectEnumV::PinQuery(_) => PinQuery::UUID,
        ObjectEnumV::Query(_) => QueryObject::UUID,
        ObjectEnumV::Result(_) => ResultObject::UUID,
        ObjectEnumV::Pin(_) => PinObject::UUID,
    }
}

impl ObjectEnum {
    /// The identifier of the object's kind.
    pub fn get_type_uuid(&self) -> (r: u128)
        ensures
            r == kind_uuid(self@),
    {
        match self {
            ObjectEnum::Group(o) => o.get_type_uuid(),
            ObjectEnum::Signed(o) => o.get_type_uuid(),
            ObjectEnum::PlainFile(o) => o.get_type_uuid(),
            ObjectEnum::Typed(o) => o.get_uuid(),
            ObjectEnum::Empty(o) => o.get_type_uuid(),
            ObjectEnum::DeleteObject(o) => o.get_type_uuid(),
            ObjectEnum::SimpleIDQuery(o) => o.get_type_uuid(),
            ObjectEnum::Query(o) => o.get_type_uuid(),
            ObjectEnum::Result(o) => o.get_type_uuid(),
            ObjectEnum::Pin(o) => o.get_type_uuid(),
            ObjectEnum::PinQuery(o) => o.get_type_uuid(),
        }
    }
}

/// Wrapping an object as a typed object and reading it back gives the same object, of the same
/// kind; and the kind read back has the identifier the object was wrapped with.
pub proof fn lemma_parse_what_was_wrapped(s: SignedObjectV, f: PlainFileObjectV, q: Seq<u8>,
    d: DeleteObjectQueryV, r: Result<(), ()>, p: PinObjectV, pq: PinQueryV, inner: TypedObjectV)
    requires
        typed_fits(s.object),
        fits(s.signature),
        fits(vstd::utf8::encode_utf8(f.name)),
        fits(f.content),
        q.len() == 32,
        d.id.len() == 32,
        fits(d.verification_key_ed25519),
        p.pinned_id.len() == 32,
        p.relation matches Some(x) ==> x.len() == 32,
        typed_fits(p.object),
        pq.pinned_id matches Some(x) ==> x.len() == 32,
        pq.relation matches Some(x) ==> x.len() == 32,
        typed_fits(pq.object),
        typed_fits(inner),
    ensures
        parse_typed_spec(TypedObjectV { uuid: SignedObject::UUID, data: enc_signed(s) }) == Ok::<
            ObjectEnumV,
            ProtoError,
        >(ObjectEnumV::Signed(s)),
        parse_typed_spec(TypedObjectV { uuid: PlainFileObject::UUID, data: enc_plain_file(f) })
            == Ok::<ObjectEnumV, ProtoError>(ObjectEnumV::PlainFile(f)),
        parse_typed_spec(TypedObjectV { uuid: EmptyObject::UUID, data: Seq::empty() }) == Ok::<
            ObjectEnumV,
            ProtoError,
        >(ObjectEnumV::Empty),
        parse_typed_spec(TypedObjectV { uuid: SimpleIDQuery::UUID, data: q }) == Ok::<
            ObjectEnumV,
            ProtoError,
        >(ObjectEnumV::SimpleIDQuery(q)),
        parse_typed_spec(TypedObjectV { uuid: QueryObject::UUID, data: enc_typed(inner) }) == Ok::<
            ObjectEnumV,
            ProtoError,
        >(ObjectEnumV::Query(QueryObjectV { query_object: inner })),
        parse_typed_spec(TypedObjectV { uuid: ResultObject::UUID, data: enc_result(r) }) == Ok::<
            ObjectEnumV,
            ProtoError,
        >(ObjectEnumV::Result(r)),
        parse_typed_spec(TypedObjectV { uuid: DeleteObjectQuery::UUID, data: enc_delete_query(d) })
            == Ok::<ObjectEnumV, ProtoError>(ObjectEnumV::DeleteObject(d)),
        parse_typed_spec(TypedObjectV { uuid: PinObject::UUID, data: enc_pin(p) }) == Ok::<
            ObjectEnumV,
            ProtoError,
        >(ObjectEnumV::Pin(p)),
        parse_typed_spec(TypedObjectV { uuid: PinQuery::UUID, data: enc_pin_query(pq) }) == Ok::<
            ObjectEnumV,
            ProtoError,
        >(ObjectEnumV::PinQuery(pq)),
{
    let e = Seq::<u8>::empty();
    lemma_signed_roundtrip(s, e);
    assert(enc_signed(s) + e =~= enc_signed(s));
    lemma_plain_file_roundtrip(f, e);
    assert(enc_plain_file(f) + e =~= enc_plain_file(f));
    assert(q.subrange(0, 32) =~= q);
    lemma_typed_bytes_roundtrip(inner, e);
    assert(enc_typed(inner) + e =~= enc_typed(inner));
    lemma_result_roundtrip(r, e);
    assert(enc_result(r) + e =~= enc_result(r));
    lemma_delete_query_roundtrip(d, e);
    assert(enc_delete_query(d) + e =~= enc_delete_query(d));
    lemma_pin_roundtrip(p, e);
    assert(enc_pin(p) + e =~= enc_pin(p));
    lemma_pin_query_roundtrip(pq, e);
    assert(enc_pin_query(pq) + e =~= enc_pin_query(pq));
}

} // verus!
