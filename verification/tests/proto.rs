use liberum_core::parser::{parse_typed, ObjectEnum};
use liberum_core::proto::{
    DeleteObjectQuery, EmptyObject, PinObject, PinQuery, PlainFileObject, ProtoError, QueryObject,
    ResultObject, SerializablePublicKey, SignedObject, SimpleIDQuery, TypedObject,
};

fn keypair_bytes() -> Vec<u8> {
    libp2p::identity::Keypair::generate_ed25519()
        .to_protobuf_encoding()
        .unwrap()
}

fn public_of(kp: &[u8]) -> Vec<u8> {
    libp2p::identity::Keypair::from_protobuf_encoding(kp)
        .unwrap()
        .public()
        .encode_protobuf()
}

fn file(name: &str, content: &[u8]) -> TypedObject {
    PlainFileObject {
        name: name.to_string(),
        content: content.to_vec(),
    }
    .into_typed()
}

#[test]
fn typed_object_layout_matches_bincode() {
    let t = TypedObject {
        uuid: PlainFileObject::UUID,
        data: vec![1, 2, 3, 250],
    };
    let expected = bincode::serialize(&(uuid::Uuid::from_u128(t.uuid), t.data.clone())).unwrap();
    assert_eq!(t.to_bytes(), expected);
}

#[test]
fn plain_file_layout_matches_bincode() {
    let f = PlainFileObject {
        name: "notes.txt".to_string(),
        content: b"hello".to_vec(),
    };
    let expected =
        bincode::serialize(&("notes.txt".to_string(), b"hello".to_vec())).unwrap();
    assert_eq!(f.into_typed().data, expected);
}

#[test]
fn typed_object_bytes_roundtrip() {
    let t = file("a", b"xyz");
    let back = TypedObject::try_from_bytes(&t.to_bytes()).unwrap();
    assert_eq!(back.uuid, t.uuid);
    assert_eq!(back.data, t.data);
    assert_eq!(
        TypedObject::try_from_bytes(&vec![1, 2, 3]).err(),
        Some(ProtoError::Malformed)
    );
}

#[test]
fn object_id_is_blake3_of_layout() {
    let t = file("a", b"xyz");
    let h = liberum_core::proto::Hash::try_from_typed_object(&t).unwrap();
    assert_eq!(h.bytes, *blake3::hash(&t.to_bytes()).as_bytes());
    let h2 = liberum_core::proto::Hash::try_from_typed_object(&file("a", b"xyw")).unwrap();
    assert!(h != h2);
}

#[test]
fn hash_text_roundtrip() {
    let h = liberum_core::proto::Hash { bytes: [7u8; 32] };
    let text = h.to_string();
    assert_eq!(text, bs58::encode([7u8; 32]).into_string());
    let back = liberum_core::proto::Hash::try_from_str(&text).unwrap();
    assert!(back == h);
    assert_eq!(liberum_core::proto::Hash::try_from_str("0OIl").err(), Some(ProtoError::InvalidBase58));
    assert_eq!(
        liberum_core::proto::Hash::try_from_str(&bs58::encode([1u8; 5]).into_string()).err(),
        Some(ProtoError::WrongLength(5))
    );
    assert_eq!(liberum_core::proto::Hash::try_from_slice(&[0u8; 31]).err(), Some(ProtoError::WrongLength(31)));
}

#[test]
fn each_object_reads_back_as_written() {
    let f = file("report.pdf", &[9, 8, 7]);
    match parse_typed(f.clone()).unwrap() {
        ObjectEnum::PlainFile(p) => {
            assert_eq!(p.name, "report.pdf");
            assert_eq!(p.content, vec![9, 8, 7]);
        }
        _ => panic!("not a plain file"),
    }
    let q = SimpleIDQuery { id: liberum_core::proto::Hash { bytes: [3u8; 32] } };
    match parse_typed(q.into_typed()).unwrap() {
        ObjectEnum::SimpleIDQuery(q2) => assert_eq!(q2.id.bytes, [3u8; 32]),
        _ => panic!("not a query"),
    }
    let r = ResultObject { result: Err(()) }.into_typed();
    assert_eq!(r.data, vec![1, 0, 0, 0]);
    match parse_typed(r).unwrap() {
        ObjectEnum::Result(o) => assert_eq!(o.result, Err(())),
        _ => panic!("not a result"),
    }
    let e = EmptyObject {}.into_typed();
    assert!(matches!(parse_typed(e).unwrap(), ObjectEnum::Empty(_)));
    let wrapped = QueryObject::from_simple_id_query(q).into_typed();
    match parse_typed(wrapped).unwrap() {
        ObjectEnum::Query(inner) => assert_eq!(inner.query_object.uuid, SimpleIDQuery::UUID),
        _ => panic!("not a query object"),
    }
}

#[test]
fn every_kind_reads_back_through_its_conversion() {
    let kp = keypair_bytes();
    let signed = SignedObject::sign_ed25519(file("s", b"sig"), &kp).unwrap();
    match parse_typed(signed.into_typed()).unwrap() {
        ObjectEnum::Signed(back) => {
            assert_eq!(back.object.data, signed.object.data);
            assert_eq!(back.signature.bytes, signed.signature.bytes);
        }
        _ => panic!("not a signed object"),
    }
    let d = DeleteObjectQuery {
        id: liberum_core::proto::Hash { bytes: [6u8; 32] },
        verification_key_ed25519: SerializablePublicKey::from_public_key(&public_of(&kp)),
    };
    match parse_typed(d.into_typed()).unwrap() {
        ObjectEnum::DeleteObject(back) => {
            assert_eq!(back.id.bytes, [6u8; 32]);
            assert_eq!(back.verification_key_ed25519.key, d.verification_key_ed25519.key);
        }
        _ => panic!("not a delete query"),
    }
    let pin = PinObject {
        pinned_id: liberum_core::proto::Hash { bytes: [7u8; 32] },
        relation: Some(liberum_core::proto::Hash { bytes: [8u8; 32] }),
        object: file("p", b"pinned"),
    };
    match parse_typed(pin.into_typed()).unwrap() {
        ObjectEnum::Pin(back) => {
            assert_eq!(back.pinned_id.bytes, [7u8; 32]);
            assert_eq!(back.relation.map(|h| h.bytes), Some([8u8; 32]));
            assert_eq!(back.object.data, pin.object.data);
        }
        _ => panic!("not a pin"),
    }
    let pq = PinQuery {
        pinned_id: None,
        relation: Some(liberum_core::proto::Hash { bytes: [9u8; 32] }),
        object: file("q", b""),
    };
    match parse_typed(pq.into_typed()).unwrap() {
        ObjectEnum::PinQuery(back) => {
            assert!(back.pinned_id.is_none());
            assert_eq!(back.relation.map(|h| h.bytes), Some([9u8; 32]));
            assert_eq!(back.object.data, pq.object.data);
        }
        _ => panic!("not a pin query"),
    }
}

#[test]
fn malformed_bytes_are_refused() {
    let broken = TypedObject {
        uuid: PlainFileObject::UUID,
        data: vec![200, 0, 0, 0, 0, 0, 0, 0, 1],
    };
    assert!(matches!(parse_typed(broken), Err(ProtoError::Malformed)));
}

#[test]
fn signed_object_verifies_with_its_key_only() {
    let kp = keypair_bytes();
    let other = keypair_bytes();
    let signed = SignedObject::sign_ed25519(file("a", b"1"), &kp).unwrap();
    let mine = SerializablePublicKey::from_public_key(&public_of(&kp));
    let theirs = SerializablePublicKey::from_public_key(&public_of(&other));
    assert_eq!(signed.verify_ed25519(&mine), Ok(true));
    assert_eq!(signed.verify_ed25519(&theirs), Ok(false));
    let garbage = SerializablePublicKey { key: vec![1, 2] };
    assert_eq!(signed.verify_ed25519(&garbage), Err(ProtoError::Malformed));
    assert_eq!(
        SignedObject::sign_ed25519(file("a", b"1"), &[1, 2, 3]).err(),
        Some(ProtoError::SigningFailed)
    );
}

#[test]
fn signed_object_roundtrip() {
    let kp = keypair_bytes();
    let signed = SignedObject::sign_ed25519(file("b", b"22"), &kp).unwrap();
    let typed = signed.into_typed();
    assert_eq!(typed.uuid, SignedObject::UUID);
    let back = SignedObject::try_from_typed(&typed).unwrap();
    assert_eq!(back.object.data, signed.object.data);
    assert_eq!(back.signature.bytes, signed.signature.bytes);
}

#[test]
fn delete_query_roundtrip() {
    let kp = keypair_bytes();
    let d = DeleteObjectQuery {
        id: liberum_core::proto::Hash { bytes: [5u8; 32] },
        verification_key_ed25519: SerializablePublicKey::from_public_key(&public_of(&kp)),
    };
    let back = DeleteObjectQuery::try_from_typed(&d.into_typed()).unwrap();
    assert_eq!(back.id.bytes, [5u8; 32]);
    assert_eq!(back.verification_key_ed25519.key, d.verification_key_ed25519.key);
}

#[test]
fn pins_wrap_innermost_first() {
    let inner = file("x", b"");
    let p1 = liberum_core::proto::Hash { bytes: [1u8; 32] };
    let p2 = liberum_core::proto::Hash { bytes: [2u8; 32] };
    let pinned = PinObject::add_pins(inner.clone(), vec![(p1, None), (p2, Some(p1))]);
    let outer = PinObject::try_from_typed(&pinned).unwrap();
    assert_eq!(outer.pinned_id.bytes, [2u8; 32]);
    assert_eq!(outer.relation.map(|h| h.bytes), Some([1u8; 32]));
    let middle = PinObject::try_from_typed(&outer.object).unwrap();
    assert_eq!(middle.pinned_id.bytes, [1u8; 32]);
    assert!(middle.relation.is_none());
    assert_eq!(middle.object.data, inner.data);
}
