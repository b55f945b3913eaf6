use liberum_core::modules::{ModuleError, PlainFileObjectModule};
use liberum_core::node_ops::{unwrap_to_file, CascadeError};
use liberum_core::proto::{EmptyObject, PinObject, ProtoError, SerializablePublicKey};
use liberum_core::vault::{stored_kind, stored_type_id, StoredKind, Vault, VaultError};
use liberum_core::runner::{answer_with, delete_answer, first_answer, QueryAnswerError};
use liberum_core::file_id::{file_id_of, file_id_to_str, str_to_file_id, FileIdError};
use liberum_core::harness::{
    action_request, checked_creation_plan, creation_plan, record_peer_id, ActionDetails, CallableNode, HarnessRequest,
    NodeDefinition, NodeDefinitionLevel,
};
use liberum_core::key::{Key, KeyError};
use liberum_core::modules::Modules;
use liberum_core::parser::{parse_typed, ObjectEnum};
use liberum_core::proto::{
    PlainFileObject, QueryObject, ResultObject, SignedObject, SimpleIDQuery, TypedObject,
};
use liberum_core::runner::{
    decide, listen_addresses, read_result_object, respond_to_store_request, DialTracker,
    ObjectSendRequest, ResultReadError, RunnerAction, RunnerMessage,
};
use liberum_core::types::{FileResponse, FileShareError, NodeInfo, NodeInfoRow};

fn s(x: &str) -> String {
    x.to_string()
}

fn file(content: &[u8]) -> TypedObject {
    PlainFileObject {
        name: "f".to_string(),
        content: content.to_vec(),
    }
    .into_typed()
}

#[test]
fn runner_routes_messages() {
    let me = s("me");
    let obj = file(b"1");
    let id = liberum_core::proto::Hash::try_from_typed_object(&obj).unwrap();
    match decide(&me, &vec![], RunnerMessage::ProvideObject { object: obj.clone(), id }) {
        RunnerAction::StartProviding { key, .. } => assert_eq!(key, id.bytes.to_vec()),
        _ => panic!("expected to start providing"),
    }
    assert!(matches!(
        decide(&me, &vec![id], RunnerMessage::ProvideObject { object: obj.clone(), id }),
        RunnerAction::AlreadyProviding
    ));
    let wrong = liberum_core::proto::Hash { bytes: [0; 32] };
    assert!(matches!(
        decide(&me, &vec![], RunnerMessage::ProvideObject { object: obj.clone(), id: wrong }),
        RunnerAction::RejectMismatch
    ));
    assert!(matches!(
        decide(&me, &vec![], RunnerMessage::SendObject { object: obj.clone(), id: wrong, peer: s("p") }),
        RunnerAction::RejectMismatch
    ));
    assert!(matches!(decide(&me, &vec![], RunnerMessage::Kill), RunnerAction::Stop));
    assert!(matches!(
        decide(&me, &vec![], RunnerMessage::GetObject { id, peer: s("me") }),
        RunnerAction::LoadLocal { .. }
    ));
    match decide(&me, &vec![], RunnerMessage::GetObject { id, peer: s("other") }) {
        RunnerAction::Request { peer, request } => {
            assert_eq!(peer, "other");
            assert_eq!(request.object.uuid, QueryObject::UUID);
            let q = QueryObject::try_from_typed(&request.object).unwrap();
            let inner = SimpleIDQuery::try_from_typed(&q.query_object).unwrap();
            assert!(inner.id == id);
        }
        _ => panic!("expected a request"),
    }
    match decide(&me, &vec![], RunnerMessage::Echo { message: s("hi") }) {
        RunnerAction::Reply(m) => assert_eq!(m, "hi"),
        _ => panic!("expected an echo"),
    }
}

#[test]
fn store_requests_are_answered_with_the_outcome() {
    let mut m = Modules::new();
    m.install_default();
    let kp = libp2p::identity::Keypair::generate_ed25519()
        .to_protobuf_encoding()
        .unwrap();
    let signed = SignedObject::sign_ed25519(file(b"x"), &kp).unwrap().into_typed();
    let id = liberum_core::proto::Hash::try_from_typed_object(&signed).unwrap();
    let r = respond_to_store_request(&m, ObjectSendRequest { object: signed, object_id: id });
    assert!(r.object_id == id);
    assert_eq!(read_result_object(r.object).unwrap().result, Ok(()));
    let r2 = respond_to_store_request(&m, ObjectSendRequest { object: file(b"u"), object_id: id });
    assert_eq!(read_result_object(r2.object).unwrap().result, Err(()));
    assert_eq!(
        read_result_object(file(b"q")).err(),
        Some(ResultReadError::Unsupported(PlainFileObject::UUID))
    );
}

#[test]
fn default_listen_addresses() {
    assert_eq!(
        listen_addresses(&vec![]),
        vec![s("/ip6/::/udp/0/quic-v1"), s("/ip4/0.0.0.0/udp/0/quic-v1")]
    );
    assert_eq!(listen_addresses(&vec![s("/ip4/1.2.3.4/tcp/5")]), vec![s("/ip4/1.2.3.4/tcp/5")]);
}

#[test]
fn dial_tracking() {
    let mut d = DialTracker::new();
    assert!(d.start(1));
    assert!(!d.start(1));
    assert!(!d.on_connected(1, false));
    assert!(d.on_connected(1, true));
    assert!(!d.finish(1));
}

#[test]
fn node_info_and_rows() {
    let kp = libp2p::identity::Keypair::generate_ed25519();
    let bytes = kp.to_protobuf_encoding().unwrap();
    let info = NodeInfo::describe(s("n"), &bytes, false, vec![s("/ip4/1.1.1.1/tcp/1")], vec![s("x")])
        .unwrap();
    assert_eq!(info.peer_id, libp2p::PeerId::from(kp.public()).to_base58());
    assert!(info.running_addresses.is_empty());
    let row = NodeInfoRow::from_info(&info);
    assert_eq!(row.first_cfg_address, "/ip4/1.1.1.1/tcp/1");
    assert_eq!(row.first_run_address, "N/A");
    let running = NodeInfo::describe(s("n"), &bytes, true, vec![], vec![s("/ip4/2.2.2.2/tcp/2")]).unwrap();
    assert_eq!(NodeInfoRow::from_info(&running).first_run_address, "/ip4/2.2.2.2/tcp/2");
    assert!(NodeInfo::describe(s("n"), &[1, 2], true, vec![], vec![]).is_err());
    assert_eq!(FileResponse { data: None }.into_result().err(), Some(FileShareError::NotFound));
    assert_eq!(FileResponse { data: Some(vec![1]) }.into_result().unwrap(), vec![1]);
}

#[test]
fn harness_plan() {
    let nodes = vec![
        NodeDefinition { node_id: 1, name: s("a"), visibility: NodeDefinitionLevel::Hidden, address: None },
        NodeDefinition { node_id: 2, name: s("b"), visibility: NodeDefinitionLevel::NeedHash, address: None },
        NodeDefinition {
            node_id: 3,
            name: s("c"),
            visibility: NodeDefinitionLevel::NeedAddress,
            address: Some(s("/ip4/1.2.3.4/udp/5/quic-v1")),
        },
    ];
    let mut plan = creation_plan(&nodes);
    assert_eq!(plan.create.len(), 3);
    assert_eq!(plan.start.len(), 3);
    assert_eq!(plan.identify.len(), 2);
    assert_eq!(plan.configure.len(), 1);
    match &plan.configure[0].1 {
        HarnessRequest::OverwriteNodeConfig { node_name, external_addresses } => {
            assert_eq!(node_name, "c");
            assert_eq!(external_addresses, &vec![s("/ip4/1.2.3.4/udp/5/quic-v1")]);
        }
        _ => panic!("expected a configuration"),
    }
    assert_eq!(plan.dialable.len(), 2);
    assert_eq!(
        plan.dialable.get(&3).unwrap().node_adress,
        Some(s("/ip4/1.2.3.4/udp/5/quic-v1"))
    );
    assert!(record_peer_id(&mut plan.dialable, 2, s("peer-b")));
    assert_eq!(plan.dialable.get(&2).unwrap().node_hash, "peer-b");
    assert!(!record_peer_id(&mut plan.dialable, 1, s("x")));
    let callable = vec![CallableNode { node_id: 3, node_hash: s("h3"), node_address: s("addr3") }];
    match action_request(s("a"), &ActionDetails::Dial { dialed_node_id: 3 }, &callable) {
        HarnessRequest::Dial { node_name, peer_id, addr } => {
            assert_eq!((node_name, peer_id, addr), (s("a"), s("h3"), s("addr3")));
        }
        _ => panic!("expected a dial"),
    }
    match action_request(s("a"), &ActionDetails::GetObject { object_hash: s("id") }, &callable) {
        HarnessRequest::DownloadFile { id, .. } => assert_eq!(id, "id"),
        _ => panic!("expected a download"),
    }
}

#[test]
fn keys_in_text() {
    let k = Key::from_bytes([42u8; 32]);
    let b64 = k.as_base64();
    assert_eq!(b64, base64::Engine::encode(&base64::engine::general_purpose::STANDARD, [42u8; 32]));
    assert!(Key::try_from_base64(b64).unwrap().eq(&k));
    assert_eq!(Key::try_from_base64(s("!!!")).err(), Some(KeyError::InvalidBase64));
    assert_eq!(Key::try_from_base64(s("AAAA")).err(), Some(KeyError::WrongLength(3)));
    let b58 = k.as_base58();
    assert!(Key::from_base58(b58).unwrap().eq(&k));
    assert_eq!(Key::from_u64s([1, 2, 3, 4]).into_u64s(), [1, 2, 3, 4]);
}

#[test]
fn file_ids() {
    let id = file_id_of(b"hello");
    assert_eq!(id, blake3::hash(b"hello").as_bytes().to_vec());
    let text = file_id_to_str(&id);
    assert_eq!(str_to_file_id(&text).unwrap(), id);
    assert_eq!(str_to_file_id("0").err(), Some(FileIdError::InvalidBase58));
}

#[test]
fn parse_signed_file() {
    let kp = libp2p::identity::Keypair::generate_ed25519().to_protobuf_encoding().unwrap();
    let signed = SignedObject::sign_ed25519(file(b"x"), &kp).unwrap().into_typed();
    assert!(matches!(parse_typed(signed).unwrap(), ObjectEnum::Signed(_)));
    let r = ResultObject { result: Ok(()) }.into_typed();
    assert_eq!(read_result_object(r).unwrap().result, Ok(()));
}

#[test]
fn query_answers() {
    let a = file(b"a");
    let b = file(b"b");
    let answer = answer_with(vec![a.clone(), b.clone()]);
    assert_eq!(answer.len(), 2);
    assert!(answer[1].1 == liberum_core::proto::Hash::try_from_typed_object(&b).unwrap());
    assert_eq!(delete_answer(&answer).unwrap().result, Ok(()));
    assert_eq!(first_answer(answer).unwrap().data, a.data);
    assert_eq!(first_answer(vec![]).err().map(|e| e), Some(QueryAnswerError::NoObjects));
    assert_eq!(delete_answer(&vec![]).err(), Some(QueryAnswerError::NoObjects));
}

#[test]
fn error_variants() {
    assert_eq!(Key::from_base58(s("0OIl")).err(), Some(KeyError::InvalidBase58));
    let kp = libp2p::identity::Keypair::generate_ed25519().to_protobuf_encoding().unwrap();
    let signed = SignedObject::sign_ed25519(file(b"x"), &kp).unwrap();
    let not_a_key = SerializablePublicKey::from_public_key(&[1, 2, 3]);
    assert_eq!(signed.verify_ed25519(&not_a_key), Err(ProtoError::InvalidPublicKey));
    let q = SimpleIDQuery { id: liberum_core::proto::Hash { bytes: [1; 32] } }.into_typed();
    assert_eq!(PlainFileObjectModule {}.publish(q).err(), Some(ModuleError::WrongObject));
    let broken = TypedObject { uuid: PlainFileObject::UUID, data: vec![9] };
    assert!(matches!(unwrap_to_file(broken), Err(CascadeError::Unreadable(ProtoError::Malformed))));
    let broken_result = TypedObject { uuid: ResultObject::UUID, data: vec![7, 7, 7, 7] };
    assert_eq!(
        read_result_object(broken_result).err(),
        Some(ResultReadError::Malformed(ProtoError::Malformed))
    );
    let broken_signed = TypedObject { uuid: SignedObject::UUID, data: vec![0] };
    assert_eq!(
        Vault::object_to_store(broken_signed).err(),
        Some(VaultError::Malformed(ProtoError::Malformed))
    );
}

#[test]
fn harness_plan_addresses() {
    let nodes = vec![
        NodeDefinition {
            node_id: 7,
            name: s("first"),
            visibility: NodeDefinitionLevel::NeedAddress,
            address: Some(s("/ip4/9.9.9.9/tcp/9")),
        },
        NodeDefinition { node_id: 7, name: s("second"), visibility: NodeDefinitionLevel::NeedHash, address: None },
        NodeDefinition { node_id: 8, name: s("h"), visibility: NodeDefinitionLevel::Hidden, address: None },
    ];
    let plan = checked_creation_plan(&nodes).unwrap();
    assert_eq!(plan.configure.len(), 1);
    assert_eq!(plan.configure[0].0, 7);
    assert_eq!(plan.identify.len(), 2);
    assert_eq!(plan.identify[1].0, 7);
    assert_eq!(plan.dialable.len(), 1);
    let d = plan.dialable.get(&7).unwrap();
    assert_eq!(d.node_name, "second");
    assert_eq!(d.node_adress, Some(s("/ip4/9.9.9.9/tcp/9")));
    assert_eq!(d.node_hash, "");
    assert!(plan.dialable.get(&8).is_none());
    let bad = vec![NodeDefinition {
        node_id: 1,
        name: s("x"),
        visibility: NodeDefinitionLevel::NeedAddress,
        address: Some(s("not an address")),
    }];
    assert!(checked_creation_plan(&bad).is_none());
    let normalised = vec![NodeDefinition {
        node_id: 2,
        name: s("y"),
        visibility: NodeDefinitionLevel::NeedAddress,
        address: Some(s("/ip4/1.2.3.4/tcp/0080")),
    }];
    match &creation_plan(&normalised).configure[0].1 {
        HarnessRequest::OverwriteNodeConfig { external_addresses, .. } => {
            assert_eq!(external_addresses, &vec![s("/ip4/1.2.3.4/tcp/80")]);
        }
        _ => panic!("expected a configuration"),
    }
}

#[test]
fn empty_typed_object() {
    let e = TypedObject::empty();
    assert_eq!(e.uuid.to_be_bytes(), [6, 0, 0, 0, 0, 0, 0, 0, 0, 0, 0, 0, 0, 0, 0, 0]);
    assert!(e.data.is_empty());
}

#[test]
fn first_vault_object_types() {
    assert_eq!(stored_type_id(&ObjectEnum::Empty(EmptyObject {})), Ok(None));
    assert_eq!(
        stored_type_id(&ObjectEnum::Typed(TypedObject::empty())),
        Ok(Some(TypedObject::UUID))
    );
    let pin = PinObject { pinned_id: liberum_core::proto::Hash { bytes: [1; 32] }, relation: None, object: TypedObject::empty() };
    assert_eq!(stored_type_id(&ObjectEnum::Pin(pin)), Ok(Some(PinObject::UUID)));
    assert_eq!(
        stored_type_id(&ObjectEnum::Result(ResultObject { result: Ok(()) })),
        Err(VaultError::Unsupported)
    );
    assert_eq!(stored_kind(TypedObject::UUID), Ok(StoredKind::Typed));
    assert_eq!(stored_kind(PinObject::UUID), Ok(StoredKind::Pin));
    assert_eq!(stored_kind(7), Err(VaultError::Unsupported));
}
