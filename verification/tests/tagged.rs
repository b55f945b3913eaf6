use liberum_core::tagged::{walk_received, Reply, TaggedObject};

fn tag(k: u8) -> [u8; 16] {
    let mut t = [0u8; 16];
    t[0] = k;
    t
}

fn enc_bytes(b: &[u8]) -> Vec<u8> {
    let mut out = (b.len() as u64).to_le_bytes().to_vec();
    out.extend_from_slice(b);
    out
}

fn enc_tagged(t: &TaggedObject) -> Vec<u8> {
    let mut out = t.uuid.to_vec();
    out.extend(enc_bytes(&t.data));
    out
}

fn signature() -> Vec<u8> {
    let mut out = vec![0u8, 0, 0, 0];
    out.extend([7u8; 32]);
    out.extend(enc_bytes(&[9u8; 64]));
    out
}

fn plain_file(name: &str, content: &[u8]) -> TaggedObject {
    let mut data = enc_bytes(name.as_bytes());
    data.extend(enc_bytes(content));
    TaggedObject { uuid: tag(4), data }
}

fn signed(inner: &TaggedObject) -> TaggedObject {
    let mut data = enc_tagged(inner);
    data.extend(signature());
    TaggedObject { uuid: tag(2), data }
}

#[test]
fn a_signed_file_is_provided_and_answered_empty() {
    let f = plain_file("a.txt", b"hi");
    let w = walk_received(signed(&f)).unwrap();
    assert_eq!(w.provide.len(), 1);
    assert_eq!(w.provide[0].data, f.data);
    assert!(matches!(w.reply, Reply::Empty));
}

#[test]
fn a_query_for_an_id_looks_it_up() {
    let q = TaggedObject { uuid: tag(8), data: vec![5u8; 32] };
    let wrapped = TaggedObject { uuid: tag(16), data: enc_tagged(&q) };
    let w = walk_received(wrapped).unwrap();
    assert!(w.provide.is_empty());
    match w.reply {
        Reply::Lookup(h) => assert_eq!(h.bytes, [5u8; 32]),
        Reply::Empty => panic!("expected a lookup"),
    }
    let in_signed = walk_received(signed(&q)).unwrap();
    assert!(matches!(in_signed.reply, Reply::Empty));
}

#[test]
fn unknown_and_empty_objects_are_answered_empty() {
    let mut odd = tag(4);
    odd[3] = 1;
    let w = walk_received(TaggedObject { uuid: odd, data: vec![] }).unwrap();
    assert!(w.provide.is_empty() && matches!(w.reply, Reply::Empty));
    let e = walk_received(TaggedObject { uuid: tag(6), data: vec![] }).unwrap();
    assert!(matches!(e.reply, Reply::Empty));
}

#[test]
fn unreadable_objects_are_refused() {
    assert!(walk_received(TaggedObject { uuid: tag(2), data: vec![1, 2, 3] }).is_none());
    let bad_name = TaggedObject { uuid: tag(4), data: {
        let mut d = enc_bytes(&[0xff, 0xfe]);
        d.extend(enc_bytes(b""));
        d
    } };
    assert!(walk_received(bad_name).is_none());
    let f = plain_file("a", b"");
    let mut broken_sig = enc_tagged(&f);
    broken_sig.extend([1u8, 0, 0, 0]);
    assert!(walk_received(TaggedObject { uuid: tag(2), data: broken_sig }).is_none());
}

#[test]
fn tagged_layout_matches_bincode() {
    let f = plain_file("n", b"c");
    assert_eq!(enc_tagged(&f), bincode::serialize(&(f.uuid, f.data.clone())).unwrap());
    assert_eq!(
        f.data,
        bincode::serialize(&("n".to_string(), b"c".to_vec())).unwrap()
    );
}
