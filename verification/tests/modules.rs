use liberum_core::modules::{
    ModuleError, ModuleKind, ModuleQueryParams, Modules, QueryStep, SignedObjectModule,
};
use liberum_core::parser::{parse_typed, ObjectEnum};
use liberum_core::proto::{
    DeleteObjectQuery, EmptyObject, PinObject, PlainFileObject, SerializablePublicKey,
    SignedObject, SimpleIDQuery, TypedObject,
};

fn keypair_bytes() -> Vec<u8> {
    libp2p::identity::Keypair::generate_ed25519()
        .to_protobuf_encoding()
        .unwrap()
}

fn public_of(kp: &[u8]) -> Vec<u8> {
    libp2p::identity::Keypair::from_protobuf_encoding(kp)
        .unwrap()
        .public()
        .encode_protobuf()
}

fn file(content: &[u8]) -> TypedObject {
    PlainFileObject {
        name: "f".to_string(),
        content: content.to_vec(),
    }
    .into_typed()
}

fn defaults() -> Modules {
    let mut m = Modules::new();
    m.install_default();
    m
}

#[test]
fn publishing_a_signed_file_puts_it_at_its_own_id() {
    let kp = keypair_bytes();
    let signed = SignedObject::sign_ed25519(file(b"abc"), &kp).unwrap().into_typed();
    let id = liberum_core::proto::Hash::try_from_typed_object(&signed).unwrap();
    let places = defaults().publish(signed).unwrap();
    assert_eq!(places.len(), 1);
    assert!(places[0] == id);
}

#[test]
fn publishing_pins_collects_each_place_once() {
    let mut m = defaults();
    m.install_module(ModuleKind::Pin);
    let a = liberum_core::proto::Hash { bytes: [1u8; 32] };
    let pinned = PinObject::add_pins(file(b"q"), vec![(a, None), (a, None)]);
    let places = m.publish(pinned).unwrap();
    assert_eq!(places.len(), 1);
    assert!(places[0] == a);
}

#[test]
fn publishing_an_object_without_module_puts_it_nowhere() {
    let places = defaults().publish(EmptyObject {}.into_typed()).unwrap();
    assert!(places.is_empty());
}

#[test]
fn publishing_a_broken_object_fails() {
    let broken = TypedObject {
        uuid: SignedObject::UUID,
        data: vec![1, 2, 3],
    };
    assert!(matches!(defaults().publish(broken), Err(ModuleError::Proto(_))));
}

#[test]
fn storing_requires_a_signature_outside() {
    let m = defaults();
    assert_eq!(m.store(file(b"plain")).err(), Some(ModuleError::NotSigned));
    let kp = keypair_bytes();
    let signed = SignedObject::sign_ed25519(file(b"ok"), &kp).unwrap().into_typed();
    assert_eq!(m.store(signed).unwrap().len(), 0);
}

#[test]
fn storing_an_unhandled_object_is_refused() {
    let m = defaults();
    assert_eq!(m.store(EmptyObject {}.into_typed()).err(), Some(ModuleError::NoModule));
    let kp = keypair_bytes();
    let signed_empty = SignedObject::sign_ed25519(EmptyObject {}.into_typed(), &kp)
        .unwrap()
        .into_typed();
    assert_eq!(m.store(signed_empty).err(), Some(ModuleError::NoModule));
}

#[test]
fn storing_a_signed_pin_records_the_pin() {
    let mut m = defaults();
    m.install_module(ModuleKind::Pin);
    let kp = keypair_bytes();
    let target = liberum_core::proto::Hash { bytes: [4u8; 32] };
    let rel = liberum_core::proto::Hash { bytes: [6u8; 32] };
    let pinned = PinObject::add_pins(file(b"z"), vec![(target, Some(rel))]);
    let signed = SignedObject::sign_ed25519(pinned, &kp).unwrap().into_typed();
    let signed_id = liberum_core::proto::Hash::try_from_typed_object(&signed).unwrap();
    let pins = m.store(signed).unwrap();
    assert_eq!(pins.len(), 1);
    assert!(pins[0].from_object_hash == target);
    assert!(pins[0].main_object_hash == signed_id);
    assert!(pins[0].relation_object_hash.unwrap() == rel);
}

#[test]
fn query_by_id_matches_that_id() {
    let m = defaults();
    let id = liberum_core::proto::Hash { bytes: [8u8; 32] };
    let q = SimpleIDQuery { id }.into_typed();
    let step = m.query_step(Modules::query_start(q)).unwrap();
    let params = match step {
        QueryStep::Continue(p) => p,
        _ => panic!("expected the query to go on"),
    };
    assert!(params.object.is_none());
    let matched = params.matched_object_id.as_ref().unwrap();
    assert_eq!(matched.len(), 1);
    assert!(matched[0] == id);
    match m.query_step(params).unwrap() {
        QueryStep::Done(ids) => {
            assert_eq!(ids.len(), 1);
            assert!(ids[0] == id);
        }
        _ => panic!("expected the query to end"),
    }
}

#[test]
fn query_of_unhandled_object_is_refused() {
    let m = defaults();
    let r = m.query_step(Modules::query_start(EmptyObject {}.into_typed()));
    assert!(matches!(r, Err(ModuleError::NoModule)));
}

fn delete_request(kp: &[u8], id: liberum_core::proto::Hash) -> TypedObject {
    let del = DeleteObjectQuery {
        id,
        verification_key_ed25519: SerializablePublicKey::from_public_key(&public_of(kp)),
    };
    SignedObject::sign_ed25519(del.into_typed(), kp).unwrap().into_typed()
}

#[test]
fn owner_may_delete_a_stored_object() {
    let kp = keypair_bytes();
    let stored = SignedObject::sign_ed25519(file(b"mine"), &kp).unwrap().into_typed();
    let id = liberum_core::proto::Hash::try_from_typed_object(&stored).unwrap();
    let m = defaults();
    let step = m.query_step(Modules::query_start(delete_request(&kp, id))).unwrap();
    let (params, del) = match step {
        QueryStep::LookUpForDelete(p, d) => (p, d),
        _ => panic!("expected a lookup"),
    };
    assert!(del.id == id);
    let (params, target) = SignedObjectModule::finish_delete(params, &del, Some(stored)).unwrap();
    assert!(target.unwrap() == id);
    let answer = params.return_objects.last().unwrap().clone();
    match parse_typed(answer).unwrap() {
        ObjectEnum::Result(r) => assert_eq!(r.result, Ok(())),
        _ => panic!("expected a result"),
    }
}

#[test]
fn others_may_not_delete_a_stored_object() {
    let owner = keypair_bytes();
    let other = keypair_bytes();
    let stored = SignedObject::sign_ed25519(file(b"theirs"), &owner).unwrap().into_typed();
    let id = liberum_core::proto::Hash::try_from_typed_object(&stored).unwrap();
    let m = defaults();
    let step = m.query_step(Modules::query_start(delete_request(&other, id))).unwrap();
    let (params, del) = match step {
        QueryStep::LookUpForDelete(p, d) => (p, d),
        _ => panic!("expected a lookup"),
    };
    let (params, target) = SignedObjectModule::finish_delete(params, &del, Some(stored)).unwrap();
    assert!(target.is_none());
    match parse_typed(params.return_objects[0].clone()).unwrap() {
        ObjectEnum::Result(r) => assert_eq!(r.result, Err(())),
        _ => panic!("expected a result"),
    }
    let nothing = ModuleQueryParams {
        object: None,
        matched_object_id: None,
        return_objects: Vec::new(),
    };
    let (_, target) = SignedObjectModule::finish_delete(nothing, &del, None).unwrap();
    assert!(target.is_none());
}

#[test]
fn forged_delete_request_is_rejected() {
    let owner = keypair_bytes();
    let forger = keypair_bytes();
    let del = DeleteObjectQuery {
        id: liberum_core::proto::Hash { bytes: [2u8; 32] },
        verification_key_ed25519: SerializablePublicKey::from_public_key(&public_of(&owner)),
    };
    let forged = SignedObject::sign_ed25519(del.into_typed(), &forger)
        .unwrap()
        .into_typed();
    match defaults().query_step(Modules::query_start(forged)).unwrap() {
        QueryStep::Continue(p) => {
            assert_eq!(p.return_objects.len(), 1);
            match parse_typed(p.return_objects[0].clone()).unwrap() {
                ObjectEnum::Result(r) => assert_eq!(r.result, Err(())),
                _ => panic!("expected a result"),
            }
        }
        _ => panic!("expected the rejection to go on"),
    }
}
