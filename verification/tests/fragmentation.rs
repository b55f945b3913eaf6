use liberum_core::vault::{matching_pins, PinRecord, VaultError};
use liberum_core::key::Key;
use liberum_core::vault::{FragmentError, FragmentInfo};
use liberum_core::vault::Vault;

#[test]
fn fragment_sizes_test() {
    let some_file_size = 45000;
    let fragment_sizes = Vault::fragment_sizes(some_file_size);

    assert_eq!(fragment_sizes, vec![32768, 8192, 4096]);

    let some_file_size = 954521;
    let fragment_sizes = Vault::fragment_sizes(some_file_size);

    assert_eq!(
        fragment_sizes,
        vec![524288, 262144, 131072, 32768, 4096, 4096]
    );

    let some_file_size = 4096;
    let fragment_sizes = Vault::fragment_sizes(some_file_size);

    assert_eq!(fragment_sizes, vec![4096]);

    let some_file_size = 5;
    let fragment_sizes = Vault::fragment_sizes(some_file_size);

    assert_eq!(fragment_sizes, vec![4096]);
}

#[test]
fn fragment_sizes_of_nothing_is_empty() {
    assert_eq!(Vault::fragment_sizes(0), Vec::<u64>::new());
}

#[test]
fn fragment_sizes_cover_the_file() {
    for size in [1u64, 4095, 4097, 8191, 65536, 100_000, 1 << 20, (1 << 20) + 1] {
        let sizes = Vault::fragment_sizes(size);
        let total: u64 = sizes.iter().sum();
        assert!(total >= size);
        let without_last: u64 = sizes[..sizes.len() - 1].iter().sum();
        assert!(without_last < size);
        for w in sizes.windows(2) {
            assert!(w[0] >= w[1]);
        }
        for s in &sizes {
            assert!(s.is_power_of_two() && *s >= 4096);
        }
    }
}

#[test]
fn powers_of_two() {
    assert!(Vault::is_power_of_2(4096));
    assert!(Vault::is_power_of_2(1));
    assert!(!Vault::is_power_of_2(0));
    assert!(!Vault::is_power_of_2(6));
    assert_eq!(Vault::power_2_upto(45000), 32768);
    assert_eq!(Vault::power_2_upto(32768), 32768);
    assert_eq!(Vault::power_2_desc_from_power_2(32768, 12232), 8192);
}

#[test]
fn fragment_plan_tiles_the_file() {
    let plan = Vault::fragment_plan(45000);
    assert_eq!(plan, vec![(0, 32768), (32768, 8192), (40960, 4096)]);
    assert_eq!(Vault::fragment_plan(0), vec![]);
}

#[test]
fn fragments_put_back_together_are_the_file() {
    for size in [0usize, 1, 4096, 4097, 45000, 100_000] {
        let content: Vec<u8> = (0..size).map(|i| (i % 251) as u8).collect();
        let frags = Vault::fragment_bytes(&content);
        let sizes = Vault::fragment_sizes(size as u64);
        assert_eq!(frags.len(), sizes.len());
        for (i, f) in frags.iter().enumerate() {
            if i + 1 < frags.len() {
                assert_eq!(f.len() as u64, sizes[i]);
            } else {
                assert!(f.len() as u64 <= sizes[i]);
            }
        }
        assert_eq!(frags.concat(), content);
    }
}

#[test]
fn vault_paths_and_fragment_keys() {
    assert_eq!(Vault::fragment_dir_path("/v"), "/v/fragments");
    assert_eq!(Vault::temp_dir_path("/v/"), "/v/temp");
    assert_eq!(Vault::default_db_path("/v"), "/v/vault.db3");
    let key = Vault::fragment_key(b"data", None).unwrap();
    assert_eq!(key.as_u8_slice_be(), *blake3::hash(b"data").as_bytes());
    assert!(Vault::fragment_key(b"data", Some(key)).is_ok());
    assert_eq!(
        Vault::fragment_key(b"other", Some(key)).err(),
        Some(FragmentError::IntegrityCheckFailed)
    );
    let v = Vault::at("/v");
    assert_eq!(
        v.fragment_path(&key),
        format!("/v/fragments/{}", bs58::encode(blake3::hash(b"data").as_bytes()).into_string())
    );
    let info = FragmentInfo::new(Key::from_bytes([1; 32]), "/v/fragments/x", 4096);
    assert_eq!(info.size, 4096);
    assert_eq!(info.path, "/v/fragments/x");
}

#[test]
fn vault_stores_only_signed_objects() {
    let kp = libp2p::identity::Keypair::generate_ed25519()
        .to_protobuf_encoding()
        .unwrap();
    let f = liberum_core::proto::PlainFileObject { name: "a".to_string(), content: vec![1] }.into_typed();
    let signed = liberum_core::proto::SignedObject::sign_ed25519(f.clone(), &kp)
        .unwrap()
        .into_typed();
    let stored = Vault::object_to_store(signed.clone()).unwrap();
    assert_eq!(stored.data, signed.data);
    assert_eq!(Vault::object_to_store(f.clone()).err(), Some(VaultError::NotSigned));
    assert!(Vault::store_decision(1, signed.clone()).unwrap().is_none());
    assert_eq!(Vault::store_decision(0, signed.clone()).unwrap().unwrap().data, signed.data);
    assert_eq!(Vault::store_decision(0, f).err(), Some(VaultError::NotSigned));
}

#[test]
fn pins_are_matched_by_scope_origin_and_relation() {
    let h = |b: u8| liberum_core::proto::Hash { bytes: [b; 32] };
    let pins = vec![
        PinRecord { main_object_hash: h(1), from_object_hash: h(9), relation_object_hash: None },
        PinRecord { main_object_hash: h(2), from_object_hash: h(9), relation_object_hash: Some(h(7)) },
        PinRecord { main_object_hash: h(1), from_object_hash: h(9), relation_object_hash: Some(h(7)) },
        PinRecord { main_object_hash: h(3), from_object_hash: h(8), relation_object_hash: Some(h(7)) },
    ];
    let all: Vec<[u8; 32]> = matching_pins(&pins, &None, &None, &None).iter().map(|x| x.bytes).collect();
    assert_eq!(all, vec![[1; 32], [2; 32], [3; 32]]);
    let from9: Vec<[u8; 32]> = matching_pins(&pins, &None, &Some(h(9)), &Some(h(7)))
        .iter()
        .map(|x| x.bytes)
        .collect();
    assert_eq!(from9, vec![[2; 32], [1; 32]]);
    let scoped: Vec<[u8; 32]> = matching_pins(&pins, &Some(vec![h(3)]), &None, &Some(h(7)))
        .iter()
        .map(|x| x.bytes)
        .collect();
    assert_eq!(scoped, vec![[3; 32]]);
    assert!(matching_pins(&pins, &Some(vec![]), &None, &None).is_empty());
}
