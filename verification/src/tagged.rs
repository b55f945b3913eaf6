//! Objects tagged with a 16-byte kind, and the walk the swarm makes over a received one: which
//! files it is to provide, and what it answers with.
use vstd::prelude::*;
use crate::wire::{parse_bytes, parse_fixed, read_bytes, read_fixed};

verus! {

/// An object tagged with its kind: sixteen bytes, the first of which names the kind.
#[derive(Debug)]
pub struct TaggedObject {
    pub uuid: [u8; 16],
    pub data: Vec<u8>,
}

/// What a tagged object holds.
pub struct TaggedObjectV {
    pub uuid: Seq<u8>,
    pub data: Seq<u8>,
}

impl View for TaggedObject {
    type V = TaggedObjectV;

    open spec fn view(&self) -> TaggedObjectV {
        TaggedObjectV { uuid: self.uuid@, data: self.data@ }
    }
}

/// The kind of a typed object inside another.
pub const TYPED_KIND: u8 = 1;

/// The kind of a signed object.
pub const SIGNED_KIND: u8 = 2;

/// The kind of a group object.
pub const GROUP_KIND: u8 = 3;

/// The kind of a plain file.
pub const PLAIN_FILE_KIND: u8 = 4;

/// The kind of the empty object.
pub const EMPTY_KIND: u8 = 6;

/// The kind of a query for an object by identifier.
pub const SIMPLE_ID_QUERY_KIND: u8 = 8;

/// The kind of a query wrapped around another object.
pub const QUERY_KIND: u8 = 16;

/// The kind a tag names: its first byte, where the other fifteen are zero.
pub open spec fn kind_of(tag: Seq<u8>) -> Option<u8> {
    if tag.len() == 16 && forall|i: int| 1 <= i < 16 ==> #[trigger] tag[i] == 0 {
        Some(tag[0])
    } else {
        None
    }
}

/// The tagged object at `pos`: its sixteen tag bytes, then its bytes after their length.
pub open spec fn parse_tagged_at(b: Seq<u8>, pos: int) -> Option<(TaggedObjectV, int)> {
    match parse_fixed(b, pos, 16) {
        Some((t, p)) => match parse_bytes(b, p) {
            Some((d, q)) => Some((TaggedObjectV { uuid: t, data: d }, q)),
            None => None,
        },
        None => None,
    }
}

/// A signature at `pos`: the variant index zero (four bytes), a 32-byte verifying key, then 64
/// signature bytes after their length.
pub open spec fn parse_signature_at(b: Seq<u8>, pos: int) -> Option<int> {
    match parse_fixed(b, pos, 4) {
        Some((t, p)) => if t == seq![0u8, 0u8, 0u8, 0u8] {
            match parse_fixed(b, p, 32) {
                Some((_, q)) => match parse_bytes(b, q) {
                    Some((s, e)) => if s.len() == 64 {
                        Some(e)
                    } else {
                        None
                    },
                    None => None,
                },
                None => None,
            }
        } else {
            None
        },
        None => None,
    }
}

/// A signed object at `pos`: a tagged object, then its signature; what is given is the object.
pub open spec fn parse_signed_tagged_at(b: Seq<u8>, pos: int) -> Option<(TaggedObjectV, int)> {
    match parse_tagged_at(b, pos) {
        Some((o, p)) => match parse_signature_at(b, p) {
            Some(e) => Some((o, e)),
            None => None,
        },
        None => None,
    }
}

/// A plain file at `pos`: its name (UTF-8, after its length), then its content.
pub open spec fn parse_plain_file_tagged_at(b: Seq<u8>, pos: int) -> bool {
    match parse_bytes(b, pos) {
        Some((n, p)) => vstd::utf8::valid_utf8(n) && parse_bytes(b, p) is Some,
        None => false,
    }
}

/// What a received object is answered with: the empty object, or the object stored under an
/// identifier.
#[derive(Debug, Clone, Copy)]
pub enum Reply {
    Empty,
    Lookup(crate::proto::Hash),
}

/// The identifier a reply looks up, if any.
pub open spec fn reply_view(r: Reply) -> Option<Seq<u8>> {
    match r {
        Reply::Empty => None,
        Reply::Lookup(h) => Some(h.bytes@),
    }
}

/// The walk over a received object: the files to provide, in order, and the reply; `None`
/// where an object of the walk cannot be read.
pub open spec fn walk(t: TaggedObjectV) -> Option<(Seq<TaggedObjectV>, Option<Seq<u8>>)>
    decreases t.data.len(),
{
    match kind_of(t.uuid) {
        Some(k) => if k == GROUP_KIND {
            match parse_fixed(t.data, 0, 32) {
                Some((_, p)) => match parse_signed_tagged_at(t.data, p) {
                    Some(_) => Some((seq![], None)),
                    None => None,
                },
                None => None,
            }
        } else if k == SIGNED_KIND {
            match parse_signed_tagged_at(t.data, 0) {
                Some((inner, _)) => if inner.data.len() < t.data.len() {
                    match walk(inner) {
                        Some((p, _)) => Some((p, None)),
                        None => None,
                    }
                } else {
                    None
                },
                None => None,
            }
        } else if k == TYPED_KIND {
            match parse_tagged_at(t.data, 0) {
                Some((inner, _)) => if inner.data.len() < t.data.len() {
                    match walk(inner) {
                        Some((p, _)) => Some((p, None)),
                        None => None,
                    }
                } else {
                    None
                },
                None => None,
            }
        } else if k == PLAIN_FILE_KIND {
            if parse_plain_file_tagged_at(t.data, 0) {
                Some((seq![t], None))
            } else {
                None
            }
        } else if k == SIMPLE_ID_QUERY_KIND {
            match parse_fixed(t.data, 0, 32) {
                Some((id, _)) => Some((seq![], Some(id))),
                None => None,
            }
        } else if k == QUERY_KIND {
            match parse_tagged_at(t.data, 0) {
                Some((inner, _)) => if inner.data.len() < t.data.len() {
                    walk(inner)
                } else {
                    None
                },
                None => None,
            }
        } else {
            Some((seq![], None))
        },
        None => Some((seq![], None)),
    }
}

/// The objects inside an object are shorter than it.
proof fn lemma_tagged_shrinks(b: Seq<u8>, pos: int)
    requires
        0 <= pos,
        parse_tagged_at(b, pos) is Some,
    ensures
        parse_tagged_at(b, pos) matches Some((o, _)) && o.data.len() < b.len(),
{
}

fn read_tagged(b: &[u8], pos: usize) -> (r: Option<(TaggedObject, usize)>)
    ensures
        match r {
            Some((t, p)) => parse_tagged_at(b@, pos as int) == Some((t@, p as int)),
            None => parse_tagged_at(b@, pos as int) is None,
        },
{
    match read_fixed(b, pos, 16) {
        None => None,
        Some((tag, p)) => match read_bytes(b, p) {
            None => None,
            Some((data, q)) => {
                let mut uuid = [0u8; 16];
                let mut i: usize = 0;
                while i < 16
                    invariant
                        tag@.len() == 16,
                        i <= 16,
                        forall|j: int| 0 <= j < i ==> uuid@[j] == tag@[j],
                    decreases 16 - i,
                {
                    uuid.set(i, tag[i]);
                    i = i + 1;
                }
                proof {
                    assert(uuid@ =~= tag@);
                }
                Some((TaggedObject { uuid, data }, q))
            },
        },
    }
}

fn read_signature(b: &[u8], pos: usize) -> (r: Option<usize>)
    ensures
        match r {
            Some(e) => parse_signature_at(b@, pos as int) == Some(e as int),
            None => parse_signature_at(b@, pos as int) is None,
        },
{
    match read_fixed(b, pos, 4) {
        None => None,
        Some((t, p)) => {
            if t[0] != 0 || t[1] != 0 || t[2] != 0 || t[3] != 0 {
                proof {
                    assert(t@ != seq![0u8, 0u8, 0u8, 0u8]);
                }
                return None;
            }
            proof {
                assert(t@ =~= seq![0u8, 0u8, 0u8, 0u8]);
            }
            match read_fixed(b, p, 32) {
                None => None,
                Some((_, q)) => match read_bytes(b, q) {
                    None => None,
                    Some((s, e)) => if s.len() == 64 {
                        Some(e)
                    } else {
                        None
                    },
                },
            }
        },
    }
}

fn tag_kind(tag: &[u8; 16]) -> (r: Option<u8>)
    ensures
        r == kind_of(tag@),
{
    let mut i: usize = 1;
    while i < 16
        invariant
            1 <= i <= 16,
            forall|j: int| 1 <= j < i ==> #[trigger] tag@[j] == 0,
        decreases 16 - i,
    {
        if tag[i] != 0 {
            return None;
        }
        i = i + 1;
    }
    Some(tag[0])
}

/// What the walk says of wrappers: a typed, signed or group object, or a plain file, is
/// answered with the empty object, whatever it holds; a typed wrapper is opened, and provides
/// exactly the files its inner object provides; a query wrapper comes to exactly what its
/// inner object comes to; and an identifier is looked up only for a query.
pub proof fn lemma_only_queries_look_up(t: TaggedObjectV)
    ensures
        (kind_of(t.uuid) == Some(TYPED_KIND) || kind_of(t.uuid) == Some(SIGNED_KIND) || kind_of(
            t.uuid,
        ) == Some(GROUP_KIND) || kind_of(t.uuid) == Some(PLAIN_FILE_KIND)) ==> (walk(t) matches Some(
            (_, reply),
        ) ==> reply is None),
        kind_of(t.uuid) == Some(TYPED_KIND) ==> (parse_tagged_at(t.data, 0) matches Some((inner, _))
            ==> ((walk(t) is Some <==> walk(inner) is Some) && (walk(t) matches Some((p, _))
            ==> walk(inner) matches Some((q, _)) && p == q))),
        kind_of(t.uuid) == Some(QUERY_KIND) ==> (parse_tagged_at(t.data, 0) matches Some((inner, _))
            ==> walk(t) == walk(inner)),
        (walk(t) matches Some((_, reply)) && reply is Some) ==> (kind_of(t.uuid) == Some(
            SIMPLE_ID_QUERY_KIND,
        ) || kind_of(t.uuid) == Some(QUERY_KIND)),
{
    if parse_tagged_at(t.data, 0) is Some {
        lemma_tagged_shrinks(t.data, 0);
    }
}

/// The files of a walk, with the reply.
#[derive(Debug)]
pub struct WalkOutcome {
    pub provide: Vec<TaggedObject>,
    pub reply: Reply,
}

/// Walks a received object: signed, typed and query objects are opened; a plain file is to be
/// provided; a query for an identifier is answered with the object stored under it; a group
/// object, the empty object and objects of other kinds are answered with the empty object.
/// `None` where an object of the walk cannot be read.
pub fn walk_received(object: TaggedObject) -> (r: Option<WalkOutcome>)
    ensures
        match walk(object@) {
            Some((p, reply)) => r matches Some(w) && w.provide@.map_values(|t: TaggedObject| t@)
                == p && reply_view(w.reply) == reply,
            None => r is None,
        },
        (kind_of(object.uuid@) == Some(TYPED_KIND) || kind_of(object.uuid@) == Some(SIGNED_KIND))
            ==> (r matches Some(w) ==> w.reply is Empty),
    decreases object.data.len(),
{
    let ghost v = object@;
    proof {
        lemma_only_queries_look_up(v);
    }
    let b = object.data.as_slice();
    let kind = match tag_kind(&object.uuid) {
        None => {
            return Some(WalkOutcome { provide: Vec::new(), reply: Reply::Empty });
        },
        Some(k) => k,
    };
    if kind == GROUP_KIND {
        match read_fixed(b, 0, 32) {
            None => None,
            Some((_, p)) => match read_tagged(b, p) {
                None => None,
                Some((_, q)) => match read_signature(b, q) {
                    None => None,
                    Some(_) => Some(WalkOutcome { provide: Vec::new(), reply: Reply::Empty }),
                },
            },
        }
    } else if kind == SIGNED_KIND || kind == TYPED_KIND || kind == QUERY_KIND {
        let inner = match read_tagged(b, 0) {
            None => {
                return None;
            },
            Some((inner, p)) => {
                if kind == SIGNED_KIND {
                    if read_signature(b, p).is_none() {
                        return None;
                    }
                }
                inner
            },
        };
        proof {
            lemma_tagged_shrinks(v.data, 0);
        }
        match walk_received(inner) {
            None => None,
            Some(w) => if kind == QUERY_KIND {
                Some(w)
            } else {
                Some(WalkOutcome { provide: w.provide, reply: Reply::Empty })
            },
        }
    } else if kind == PLAIN_FILE_KIND {
        let ok = match read_bytes(b, 0) {
            None => false,
            Some((n, p)) => crate::proto::utf8_valid(n.as_slice()) && read_bytes(b, p).is_some(),
        };
        if !ok {
            return None;
        }
        let mut provide = Vec::new();
        provide.push(object);
        proof {
            assert(provide@.map_values(|t: TaggedObject| t@) =~= seq![v]);
        }
        Some(WalkOutcome { provide, reply: Reply::Empty })
    } else if kind == SIMPLE_ID_QUERY_KIND {
        match read_fixed(b, 0, 32) {
            None => None,
            Some((id, _)) => {
                let h = crate::proto::hash_of_bytes(id.as_slice());
                Some(WalkOutcome { provide: Vec::new(), reply: Reply::Lookup(h) })
            },
        }
    } else {
        Some(WalkOutcome { provide: Vec::new(), reply: Reply::Empty })
    }
}

} // verus!
