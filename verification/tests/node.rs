use liberum_core::node_store::{NodeBuildError, NodeBuilder};
use liberum_core::configs::{Config, ConfigError, ConfigManager, ConfigSerializable};
use liberum_core::node_ops::{
    dedup_peers, delete_targets, is_self, tally_delete, unwrap_to_file, CascadeError,
    DeleteReply, Fetch, FetchAction, FetchError, ObjectDeleted, ProviderQueries, PublishTally,
    DeleteError, OwnCopy, PublishError, PublishReply, publish_outcome, query_stats,
};
use liberum_core::node_store::{
    BootstrapNode, NodeConfig, NodeStore, NodeStoreError, UpdateNodeConfig,
};
use liberum_core::proto::{EmptyObject, PlainFileObject, ResultObject, SignedObject, TypedObject};
use liberum_core::registry::{NodeManagerError, NodeRegistry};

fn s(x: &str) -> String {
    x.to_string()
}

fn file(content: &[u8]) -> TypedObject {
    PlainFileObject {
        name: "f".to_string(),
        content: content.to_vec(),
    }
    .into_typed()
}

#[test]
fn config_paths() {
    let m = ConfigManager::from_home(None, Some(s("/home/ala"))).unwrap();
    assert_eq!(m.path, "/home/ala/.liberum-neto");
    assert_eq!(m.get_node_path("n1"), "/home/ala/.liberum-neto/n1");
    assert_eq!(
        m.get_node_config_path("n1"),
        "/home/ala/.liberum-neto/n1/config.json"
    );
    let m2 = ConfigManager::new(Some(s("/tmp/x/"))).unwrap();
    assert_eq!(m2.get_node_path("a"), "/tmp/x/a");
    assert_eq!(
        ConfigManager::from_home(None, None).err(),
        Some(ConfigError::NoHomeDirectory)
    );
}

#[test]
fn config_exists_only_with_dir_and_file() {
    let m = ConfigManager::new(Some(s("/c"))).unwrap();
    let both = vec![s("/c/n"), s("/c/n/config.json")];
    let dir_only = vec![s("/c/n")];
    assert!(m.node_exists("n", &both));
    assert!(!m.node_exists("n", &dir_only));
    assert!(!m.node_exists("m", &both));
}

#[test]
fn adding_a_config_twice_is_refused() {
    let m = ConfigManager::new(Some(s("/c"))).unwrap();
    let (path, cfg) = m.add_config("n", &vec![]).unwrap();
    assert_eq!(path, "/c/n/config.json");
    assert_eq!(cfg.name, "n");
    assert!(libp2p::identity::Keypair::from_protobuf_encoding(&cfg.identity).is_ok());
    let existing = vec![s("/c/n"), s("/c/n/config.json")];
    assert_eq!(
        m.add_config("n", &existing).err().map(|e| e),
        Some(ConfigError::NodeExists(s("n")))
    );
    assert_eq!(
        m.locate_node_config("zz", &existing).err(),
        Some(ConfigError::NodeDoesNotExist(s("zz")))
    );
    assert_eq!(m.locate_node_config("n", &existing).unwrap(), "/c/n/config.json");
}

#[test]
fn config_reads_back_as_written() {
    let cfg = Config::new("alpha");
    let ser = cfg.to_serializable();
    let back = Config::try_from_serializable(&ser).unwrap();
    assert_eq!(back.name, "alpha");
    assert_eq!(back.identity, cfg.identity);
    let bad = ConfigSerializable {
        name: s("x"),
        identity: vec![1, 2, 3],
    };
    assert_eq!(
        Config::try_from_serializable(&bad).err().map(|_| ()),
        Some(())
    );
    assert!(matches!(
        Config::try_from_serializable(&bad),
        Err(ConfigError::InvalidIdentity)
    ));
}

#[test]
fn node_store_paths() {
    let st = NodeStore::new("/srv/nodes");
    assert_eq!(st.resolve_node_dir_path("a"), "/srv/nodes/a");
    assert_eq!(st.resolve_node_config_path("a"), "/srv/nodes/a/config.json");
    assert_eq!(st.resolve_node_key_path("a"), "/srv/nodes/a/keypair");
    assert!(st.node_exists("a", &vec![s("/srv/nodes/a")]));
    assert!(!st.node_exists("b", &vec![s("/srv/nodes/a")]));
    assert_eq!(
        NodeStore::store_dir_from_home(None, Some(s("/home/u"))).unwrap(),
        "/home/u/.liberum-neto"
    );
    assert_eq!(
        NodeStore::store_dir_from_home(Some("/abs/dir"), Some(s("/home/u"))).unwrap(),
        "/abs/dir"
    );
    assert_eq!(
        NodeStore::store_dir_from_home(Some("rel"), Some(s("/home/u"))).unwrap(),
        "/home/u/rel"
    );
    assert!(NodeStore::store_dir_from_home(None, None).is_err());
}

#[test]
fn loading_a_missing_node_is_refused() {
    let st = NodeStore::new("/srv");
    assert_eq!(
        st.load_node_files("a", false, false).err(),
        Some(NodeStoreError::NodeDoesNotExist)
    );
    assert!(matches!(
        st.load_node_files("a", true, false),
        Err(NodeStoreError::OtherError { .. })
    ));
    let f = st.load_node_files("a", true, true).unwrap();
    assert_eq!(f.key, "/srv/a/keypair");
    assert_eq!(
        st.existing_node_config_path("a", &vec![]).err(),
        Some(NodeStoreError::NodeDoesNotExist)
    );
    let kp = Config::new("a").identity;
    let snap = NodeStore::snapshot_from_parts(s("a"), NodeConfig::empty(), kp.clone()).unwrap();
    assert_eq!(snap.keypair, kp);
    assert!(NodeStore::snapshot_from_parts(s("a"), NodeConfig::empty(), vec![0]).is_err());
}

#[test]
fn bootstrap_nodes_are_checked() {
    let kp = libp2p::identity::Keypair::generate_ed25519();
    let peer = libp2p::PeerId::from(kp.public()).to_base58();
    let b = BootstrapNode::from_strings(&peer, "/ip4/127.0.0.1/udp/4001/quic-v1").unwrap();
    assert_eq!(b.id, peer);
    assert!(BootstrapNode::from_strings("nope", "/ip4/127.0.0.1/tcp/1").is_err());
    assert!(BootstrapNode::from_strings(&peer, "not an address").is_err());
    let mut cfg = NodeConfig::empty();
    let upd = UpdateNodeConfig {
        name: s("n"),
        bootstrap_node_id: peer.clone(),
        bootstrap_node_addr: s("/ip4/10.0.0.1/tcp/7"),
    };
    cfg.add_bootstrap_node(&upd).unwrap();
    assert_eq!(cfg.bootstrap_nodes.len(), 1);
    assert!(cfg.add_external_address("/ip6/::1/udp/9/quic-v1").is_ok());
    assert!(cfg.add_external_address("bad").is_err());
    assert_eq!(cfg.external_addresses, vec![s("/ip6/::1/udp/9/quic-v1")]);
}

#[test]
fn registry_start_get_die() {
    let mut r = NodeRegistry::new();
    r.start_node("a", Ok(1)).unwrap();
    r.start_node("b", Ok(2)).unwrap();
    assert_eq!(
        r.start_node("a", Ok(3)).err(),
        Some(NodeManagerError::AlreadyStarted { name: s("a") })
    );
    assert_eq!(
        r.start_node("c", Err(NodeStoreError::NodeDoesNotExist)).err(),
        Some(NodeManagerError::StoreError(NodeStoreError::NodeDoesNotExist))
    );
    assert!(!r.is_running("c"));
    assert!(r.check_can_start("c").is_ok());
    assert_eq!(
        r.check_can_start("a").err(),
        Some(NodeManagerError::AlreadyStarted { name: s("a") })
    );
    assert_eq!(r.get_node("a").unwrap(), 1);
    assert!(r.is_running("b"));
    assert_eq!(r.names(), vec![s("a"), s("b")]);
    assert_eq!(r.on_link_died(2).unwrap(), "b");
    assert!(!r.is_running("b"));
    assert_eq!(
        r.get_node("b").err(),
        Some(NodeManagerError::NotStarted { name: s("b") })
    );
    assert!(r.on_link_died(9).is_err());
}

#[test]
fn providers_are_deduplicated_in_order() {
    let v = vec![s("p1"), s("p2"), s("p1"), s("p3"), s("p2")];
    assert_eq!(dedup_peers(&v), vec![s("p1"), s("p2"), s("p3")]);
}

#[test]
fn fetch_keeps_only_the_object_asked_for() {
    let good = file(b"wanted");
    let target = liberum_core::proto::Hash::try_from_typed_object(&good).unwrap();
    let stats = query_stats(Some(std::time::Duration::from_millis(1500)), 4);
    let (mut f, a) = Fetch::start(target, &vec![s("p1"), s("p2"), s("p1")], stats);
    match a {
        FetchAction::Ask(p) => assert_eq!(p, "p1"),
        _ => panic!("expected to ask p1"),
    }
    match f.on_answer(Some(file(b"forged"))) {
        FetchAction::Ask(p) => assert_eq!(p, "p2"),
        _ => panic!("expected to ask p2"),
    }
    match f.on_answer(Some(good.clone())) {
        FetchAction::Done(o, st) => {
            assert_eq!(o.data, good.data);
            let st = st.unwrap();
            assert_eq!(st.query_duration, std::time::Duration::from_millis(1500));
            assert_eq!(st.total_requests, 4);
        }
        _ => panic!("expected the object"),
    }
}

#[test]
fn fetch_fails_when_providers_run_out() {
    let (_, a) = Fetch::start(liberum_core::proto::Hash { bytes: [0; 32] }, &vec![], None);
    assert!(matches!(a, FetchAction::Fail(FetchError::NoProviders)));
    let (mut f, _) = Fetch::start(liberum_core::proto::Hash { bytes: [0; 32] }, &vec![s("only")], None);
    assert!(matches!(f.on_timeout(), FetchAction::Fail(FetchError::TimedOut)));
    assert!(matches!(f.on_answer(None), FetchAction::Fail(FetchError::AllFailed)));
}

#[test]
fn delete_tally() {
    let (me, others) = delete_targets(&s("me"), &vec![s("x"), s("me"), s("y")]);
    assert!(me);
    assert_eq!(others, vec![s("x"), s("y")]);
    let (me2, _) = delete_targets(&s("me"), &vec![s("x")]);
    assert!(!me2);
    let replies = vec![
        DeleteReply::Answered(ResultObject { result: Ok(()) }),
        DeleteReply::Unreachable,
        DeleteReply::Answered(ResultObject { result: Err(()) }),
        DeleteReply::Answered(ResultObject { result: Ok(()) }),
    ];
    assert_eq!(
        tally_delete(OwnCopy::StoppedProviding, &replies),
        Ok(ObjectDeleted {
            deleted_myself: true,
            deleted_count: 2,
            failed_count: 2
        })
    );
    assert_eq!(
        tally_delete(OwnCopy::TimedOut, &replies),
        Err(DeleteError::TimedOut)
    );
    let late = vec![DeleteReply::Unreachable, DeleteReply::TimedOut];
    assert_eq!(tally_delete(OwnCopy::NotProvided, &late), Err(DeleteError::TimedOut));
    assert_eq!(
        tally_delete(OwnCopy::NotProvided, &vec![]),
        Ok(ObjectDeleted { deleted_myself: false, deleted_count: 0, failed_count: 0 })
    );
}

#[test]
fn publish_stops_after_enough_nodes() {
    let mut t = PublishTally::new();
    assert!(!t.published());
    assert!(t.on_reply(None));
    assert!(t.on_reply(Some(ResultObject { result: Err(()) })));
    assert!(!t.published());
    for _ in 0..19 {
        assert!(t.on_reply(Some(ResultObject { result: Ok(()) })));
    }
    assert!(t.published());
    assert!(!t.on_reply(Some(ResultObject { result: Ok(()) })));
    assert!(is_self(&s("a"), &s("a")));
    assert!(!is_self(&s("a"), &s("b")));
}

#[test]
fn provider_queries_gather_until_last_step() {
    let mut q = ProviderQueries::new();
    q.start(7);
    let d = Some(std::time::Duration::from_secs(2));
    assert!(q.on_found(7, vec![s("a")], false, d, 3).is_none());
    assert!(q.on_found(7, vec![], true, d, 3).is_none());
    assert!(q.on_found(8, vec![s("z")], true, d, 3).is_none());
    let (found, stats) = q.on_found(7, vec![s("b")], true, d, 5).unwrap();
    assert_eq!(found, vec![s("a"), s("b")]);
    let stats = stats.unwrap();
    assert_eq!(stats.query_duration, std::time::Duration::from_secs(2));
    assert_eq!(stats.total_requests, 5);
    assert!(q.on_finished(7, d, 1).is_none());
    q.start(9);
    let (none_found, no_stats) = q.on_finished(9, None, 6).unwrap();
    assert_eq!(none_found, Vec::<String>::new());
    assert!(no_stats.is_none());
}

#[test]
fn download_cascade_finds_the_file() {
    let kp = libp2p::identity::Keypair::generate_ed25519()
        .to_protobuf_encoding()
        .unwrap();
    let inner = SignedObject::sign_ed25519(file(b"payload"), &kp).unwrap().into_typed();
    let outer = SignedObject::sign_ed25519(inner, &kp).unwrap().into_typed();
    let f = unwrap_to_file(outer).unwrap();
    assert_eq!(f.content, b"payload".to_vec());
    assert_eq!(
        unwrap_to_file(EmptyObject {}.into_typed()).err(),
        Some(CascadeError::Unsupported)
    );
}

#[test]
fn node_builder_requires_name_and_keypair() {
    assert_eq!(
        NodeBuilder::default().build_snapshot().err().map(|e| e),
        Some(NodeBuildError::NameRequired)
    );
    assert_eq!(
        NodeBuilder::default().name(s("n")).build_snapshot().err(),
        Some(NodeBuildError::KeypairRequired)
    );
    let snap = NodeBuilder::default()
        .name(s("n"))
        .keypair(vec![1, 2, 3])
        .build_snapshot()
        .unwrap();
    assert_eq!(snap.name, "n");
    assert!(snap.config.bootstrap_nodes.is_empty());
    let mut cfg = NodeConfig::empty();
    cfg.add_external_address("/ip4/1.2.3.4/tcp/9").unwrap();
    let snap2 = NodeBuilder::default()
        .config(cfg)
        .keypair(vec![9])
        .name(s("m"))
        .build_snapshot()
        .unwrap();
    assert_eq!(snap2.config.external_addresses, vec![s("/ip4/1.2.3.4/tcp/9")]);
}

#[test]
fn plain_file_from_path() {
    let f = PlainFileObject::try_from_path("/home/u/docs/report.pdf", vec![1, 2]).unwrap();
    assert_eq!(f.name, "report.pdf");
    assert_eq!(f.content, vec![1, 2]);
    assert_eq!(PlainFileObject::try_from_path("dir/", vec![]).unwrap().name, "dir");
    assert!(PlainFileObject::try_from_path("/", vec![]).is_err());
    assert!(PlainFileObject::try_from_path("a/..", vec![]).is_err());
}

#[test]
fn publish_outcome_names_the_object() {
    let obj = file(b"published");
    let id = liberum_core::proto::Hash::try_from_typed_object(&obj).unwrap();
    let text = bs58::encode(blake3::hash(&obj.to_bytes()).as_bytes()).into_string();
    assert_eq!(id.to_string(), text);
    let ok = ResultObject { result: Ok(()) };
    let refused = ResultObject { result: Err(()) };
    let replies = vec![PublishReply::NoAnswer, PublishReply::Answered(refused), PublishReply::Answered(ok)];
    assert_eq!(publish_outcome(&obj, &replies), Ok(text.clone()));
    assert_eq!(
        publish_outcome(&obj, &vec![PublishReply::Answered(refused), PublishReply::NoAnswer]),
        Err(PublishError::NotPublished)
    );
    assert_eq!(
        publish_outcome(&obj, &vec![PublishReply::NoAnswer, PublishReply::TimedOut, PublishReply::Answered(ok)]),
        Err(PublishError::TimedOut)
    );
    let mut enough = vec![PublishReply::Answered(ok); 20];
    enough.push(PublishReply::TimedOut);
    assert_eq!(publish_outcome(&obj, &enough), Ok(text));
    assert_eq!(PublishError::NotPublished.message(), "Could not publish file");
    assert_eq!(PublishError::TimedOut.message(), "deadline has elapsed");
}
