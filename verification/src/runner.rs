//! The swarm runner's decisions: what a message from the node amounts to in the network, and
//! how a request to store an object is answered.
use vstd::prelude::*;
use crate::modules::{
    hashes_view, object_id, result_object, store_run, store_starts_with_pin, make_result_object,
    ModuleError, Modules,
};
use crate::parser::{parse_typed, parse_typed_spec, ObjectEnum, ObjectEnumV};
use crate::proto::{
    enc_typed, GroupObject, ProtoError, QueryObject, SimpleIDQuery, TypedObject, TypedObjectV,
};
use crate::paths::string_eq;

verus! {

/// A request to store an object, with the identifier the sender gives it.
#[derive(Debug)]
pub struct ObjectSendRequest {
    pub object: TypedObject,
    pub object_id: crate::proto::Hash,
}

/// The answer to a request: an object (the outcome), with the identifier of the request.
#[derive(Debug)]
pub struct ObjectResponse {
    pub object: TypedObject,
    pub object_id: crate::proto::Hash,
}

/// A message from a node to its swarm runner. Peers are named by the text of their identifiers.
#[derive(Debug)]
pub enum RunnerMessage {
    Echo { message: String },
    Dial { peer_id: String, peer_addr: String },
    Kill,
    ProvideObject { object: TypedObject, id: crate::proto::Hash },
    GetProviders { id: crate::proto::Hash },
    GetObject { id: crate::proto::Hash, peer: String },
    GetClosestPeers { id: crate::proto::Hash },
    SendObject { object: TypedObject, id: crate::proto::Hash, peer: String },
}

/// What the swarm runner is to do about a message.
#[derive(Debug)]
pub enum RunnerAction {
    /// Answer with this text.
    Reply(String),
    /// Dial the peer at this address.
    Dial { peer_id: String, peer_addr: String },
    /// Stop the swarm.
    Stop,
    /// Refuse: the identifier is not that of the object.
    RejectMismatch,
    /// Nothing to do: the object is already provided.
    AlreadyProviding,
    /// Keep the object, put it in the vault and announce it under the key.
    StartProviding { object: TypedObject, key: Vec<u8> },
    /// Look for the providers of the key.
    FindProviders { key: Vec<u8> },
    /// The object is asked of this node itself: take it from the vault.
    LoadLocal { id: crate::proto::Hash },
    /// Send the request to the peer.
    Request { peer: String, request: ObjectSendRequest },
    /// Look for the peers closest to the key.
    FindClosestPeers { key: Vec<u8> },
}

/// Whether a hash with the bytes of `id` is among `hashes`.
pub fn contains_hash(hashes: &Vec<crate::proto::Hash>, id: &crate::proto::Hash) -> (r: bool)
    ensures
        r == hashes_view(hashes@).contains(id.bytes@),
{
    let mut i: usize = 0;
    while i < hashes.len()
        invariant
            i <= hashes@.len(),
            forall|j: int| 0 <= j < i ==> #[trigger] hashes@[j].bytes@ != id.bytes@,
        decreases hashes.len() - i,
    {
        if hashes[i] == *id {
            proof {
                assert(hashes_view(hashes@)[i as int] == id.bytes@);
            }
            return true;
        }
        i = i + 1;
    }
    proof {
        if hashes_view(hashes@).contains(id.bytes@) {
            let k = choose|k: int|
                0 <= k < hashes_view(hashes@).len() && hashes_view(hashes@)[k] == id.bytes@;
            assert(hashes@[k].bytes@ == id.bytes@);
        }
    }
    false
}

/// The key under which an object is announced: its identifier's bytes.
pub fn key_of(id: &crate::proto::Hash) -> (r: Vec<u8>)
    ensures
        r@ == id.bytes@,
{
    let mut key: Vec<u8> = Vec::new();
    crate::wire::push_all(&mut key, &id.bytes);
    proof {
        assert(key@ =~= id.bytes@);
    }
    key
}

/// The query that asks a peer for the object with identifier `id`.
pub open spec fn query_for(id: Seq<u8>) -> TypedObjectV {
    TypedObjectV {
        uuid: QueryObject::UUID,
        data: enc_typed(TypedObjectV { uuid: SimpleIDQuery::UUID, data: id }),
    }
}

/// Decides what to do about `msg`, for the swarm of the peer `local_peer`, which provides the
/// objects with identifiers `providing`.
pub fn decide(local_peer: &String, providing: &Vec<crate::proto::Hash>, msg: RunnerMessage) -> (r:
    RunnerAction)
    ensures
        match msg {
            RunnerMessage::Echo { message } => r matches RunnerAction::Reply(m) && m@ == message@,
            RunnerMessage::Dial { peer_id, peer_addr } => r matches RunnerAction::Dial {
                peer_id: i,
                peer_addr: a,
            } && i@ == peer_id@ && a@ == peer_addr@,
            RunnerMessage::Kill => r is Stop,
            RunnerMessage::ProvideObject { object, id } => if object_id(object@) != id.bytes@ {
                r is RejectMismatch
            } else if hashes_view(providing@).contains(id.bytes@) {
                r is AlreadyProviding
            } else {
                r matches RunnerAction::StartProviding { object: o, key } && o@ == object@ && key@
                    == id.bytes@
            },
            RunnerMessage::GetProviders { id } => r matches RunnerAction::FindProviders { key }
                && key@ == id.bytes@,
            RunnerMessage::GetObject { id, peer } => if peer@ == local_peer@ {
                r matches RunnerAction::LoadLocal { id: i } && i.bytes@ == id.bytes@
            } else {
                r matches RunnerAction::Request { peer: p, request } && p@ == peer@
                    && request.object_id.bytes@ == id.bytes@ && request.object@ == query_for(
                    id.bytes@,
                )
            },
            RunnerMessage::GetClosestPeers { id } => r matches RunnerAction::FindClosestPeers { key }
                && key@ == id.bytes@,
            RunnerMessage::SendObject { object, id, peer } => if object_id(object@) != id.bytes@ {
                r is RejectMismatch
            } else {
                r matches RunnerAction::Request { peer: p, request } && p@ == peer@
                    && request.object_id.bytes@ == id.bytes@ && request.object@ == object@
            },
        },
{
    match msg {
        RunnerMessage::Echo { message } => RunnerAction::Reply(message),
        RunnerMessage::Dial { peer_id, peer_addr } => RunnerAction::Dial { peer_id, peer_addr },
        RunnerMessage::Kill => RunnerAction::Stop,
        RunnerMessage::ProvideObject { object, id } => {
            let computed = match crate::proto::Hash::try_from_typed_object(&object) {
                Ok(h) => h,
                Err(_) => {
                    return RunnerAction::RejectMismatch;
                },
            };
            if computed != id {
                return RunnerAction::RejectMismatch;
            }
            if contains_hash(providing, &id) {
                return RunnerAction::AlreadyProviding;
            }
            RunnerAction::StartProviding { object, key: key_of(&id) }
        },
        RunnerMessage::GetProviders { id } => RunnerAction::FindProviders { key: key_of(&id) },
        RunnerMessage::GetObject { id, peer } => {
            if string_eq(&peer, local_peer) {
                RunnerAction::LoadLocal { id }
            } else {
                let query = QueryObject::from_simple_id_query(SimpleIDQuery { id });
                let object = query.into_typed();
                RunnerAction::Request { peer, request: ObjectSendRequest { object, object_id: id } }
            }
        },
        RunnerMessage::GetClosestPeers { id } => RunnerAction::FindClosestPeers {
            key: key_of(&id),
        },
        RunnerMessage::SendObject { object, id, peer } => {
            let computed = match crate::proto::Hash::try_from_typed_object(&object) {
                Ok(h) => h,
                Err(_) => {
                    return RunnerAction::RejectMismatch;
                },
            };
            if computed != id {
                return RunnerAction::RejectMismatch;
            }
            RunnerAction::Request { peer, request: ObjectSendRequest { object, object_id: id } }
        },
    }
}

/// Answers a request to store an object: the modules store it, and the answer says whether they
/// accepted it.
pub fn respond_to_store_request(modules: &Modules, request: ObjectSendRequest) -> (r: ObjectResponse)
    requires
        modules.wf(),
        !store_starts_with_pin(modules.installed(), request.object@),
    ensures
        r.object_id == request.object_id,
        r.object@ == result_object(store_run(modules.installed(), request.object@, seq![]) is Ok),
{
    let ObjectSendRequest { object, object_id } = request;
    let ok = match modules.store(object) {
        Ok(_) => true,
        Err(_) => false,
    };
    ObjectResponse { object: make_result_object(ok), object_id }
}

/// Why an answer is not an outcome.
#[derive(Debug, Clone, Copy, PartialEq, Eq, Structural)]
pub enum ResultReadError {
    /// The answer's bytes do not hold an object of its type.
    Malformed(ProtoError),
    /// The answer is an object of another type.
    Unsupported(u128),
}

/// Reads the outcome that a peer answered with.
pub fn read_result_object(object: TypedObject) -> (r: Result<crate::proto::ResultObject, ResultReadError>)
    requires
        object.uuid != GroupObject::UUID,
    ensures
        match parse_typed_spec(object@) {
            Ok(ObjectEnumV::Result(res)) => r matches Ok(o) && o.result == res,
            Ok(_) => r == Err::<crate::proto::ResultObject, ResultReadError>(
                ResultReadError::Unsupported(object.uuid),
            ),
            Err(e) => r == Err::<crate::proto::ResultObject, ResultReadError>(
                ResultReadError::Malformed(e),
            ),
        },
{
    let uuid = object.uuid;
    match parse_typed(object) {
        Ok(ObjectEnum::Result(o)) => Ok(o),
        Ok(_) => Err(ResultReadError::Unsupported(uuid)),
        Err(e) => Err(ResultReadError::Malformed(e)),
    }
}

} // verus!

verus! {

/// The address a node listens on over IPv6 when it is given none.
pub const DEFAULT_MULTIADDR_STR_IP6: &'static str = "/ip6/::/udp/0/quic-v1";

/// The address a node listens on over IPv4 when it is given none.
pub const DEFAULT_MULTIADDR_STR_IP4: &'static str = "/ip4/0.0.0.0/udp/0/quic-v1";

/// The addresses a node listens on and announces: those of its configuration, else the default
/// ones, IPv6 first.
pub fn listen_addresses(external_addresses: &Vec<String>) -> (r: Vec<String>)
    ensures
        external_addresses@.len() > 0 ==> crate::node_ops::texts(r@) == crate::node_ops::texts(
            external_addresses@,
        ),
        external_addresses@.len() == 0 ==> crate::node_ops::texts(r@) == seq![
            DEFAULT_MULTIADDR_STR_IP6@,
            DEFAULT_MULTIADDR_STR_IP4@,
        ],
{
    let mut out: Vec<String> = Vec::new();
    if external_addresses.len() == 0 {
        out.push(DEFAULT_MULTIADDR_STR_IP6.to_owned());
        out.push(DEFAULT_MULTIADDR_STR_IP4.to_owned());
        proof {
            assert(crate::node_ops::texts(out@) =~= seq![
                DEFAULT_MULTIADDR_STR_IP6@,
                DEFAULT_MULTIADDR_STR_IP4@,
            ]);
        }
        return out;
    }
    let mut i: usize = 0;
    while i < external_addresses.len()
        invariant
            i <= external_addresses@.len(),
            crate::node_ops::texts(out@) == crate::node_ops::texts(external_addresses@.take(i as int)),
        decreases external_addresses.len() - i,
    {
        let ghost before = out@;
        let a = external_addresses[i].clone();
        out.push(a);
        proof {
            assert(external_addresses@.take(i + 1) =~= external_addresses@.take(i as int).push(
                external_addresses@[i as int],
            ));
            assert(crate::node_ops::texts(out@) =~= crate::node_ops::texts(before).push(a@));
            assert(crate::node_ops::texts(external_addresses@.take(i + 1)) =~= crate::node_ops::texts(
                external_addresses@.take(i as int),
            ).push(external_addresses@[i as int]@));
        }
        i = i + 1;
    }
    proof {
        assert(external_addresses@.take(external_addresses@.len() as int) =~= external_addresses@);
    }
    out
}

/// The dials under way, by connection.
#[derive(Debug)]
pub struct DialTracker {
    pending: std::collections::HashSet<u64>,
}

impl DialTracker {
    /// The connections being dialed.
    pub closed spec fn pending(&self) -> Set<u64> {
        self.pending@
    }

    /// No dial under way.
    pub fn new() -> (r: DialTracker)
        ensures
            r.pending() == Set::<u64>::empty(),
    {
        DialTracker { pending: std::collections::HashSet::new() }
    }

    /// A dial on connection `id` is to start; refused (`false`) where one is already under way
    /// on it.
    pub fn start(&mut self, id: u64) -> (r: bool)
        ensures
            r == !old(self).pending().contains(id),
            final(self).pending() == old(self).pending().insert(id),
    {
        broadcast use vstd::std_specs::hash::group_hash_axioms;

        self.pending.insert(id)
    }

    /// The dial on connection `id` failed to start, or ended: it is no longer under way.
    /// Says whether it was.
    pub fn finish(&mut self, id: u64) -> (r: bool)
        ensures
            r == old(self).pending().contains(id),
            final(self).pending() == old(self).pending().remove(id),
    {
        broadcast use vstd::std_specs::hash::group_hash_axioms;

        self.pending.remove(&id)
    }

    /// A connection `id` was established: where this node dialed it and a dial is under way on
    /// it, the dial succeeded (`true`) and ends.
    pub fn on_connected(&mut self, id: u64, is_dialer: bool) -> (r: bool)
        ensures
            r == (is_dialer && old(self).pending().contains(id)),
            is_dialer ==> final(self).pending() == old(self).pending().remove(id),
            !is_dialer ==> final(self).pending() == old(self).pending(),
    {
        if is_dialer {
            self.finish(id)
        } else {
            false
        }
    }
}

} // verus!

verus! {

/// Why an answer to a query is of no use.
#[derive(Debug, Clone, Copy, PartialEq, Eq, Structural)]
pub enum QueryAnswerError {
    /// The answer holds no object.
    NoObjects,
}

/// The objects a query is answered with, each with its identifier.
pub fn answer_with(objects: Vec<TypedObject>) -> (r: Vec<(TypedObject, crate::proto::Hash)>)
    ensures
        r@.len() == objects@.len(),
        forall|i: int|
            0 <= i < r@.len() ==> (#[trigger] r@[i]).0@ == objects@[i]@ && r@[i].1.bytes@
                == object_id(objects@[i]@),
{
    let mut out: Vec<(TypedObject, crate::proto::Hash)> = Vec::new();
    let mut i: usize = 0;
    while i < objects.len()
        invariant
            i <= objects@.len(),
            out@.len() == i,
            forall|j: int|
                0 <= j < i ==> (#[trigger] out@[j]).0@ == objects@[j]@ && out@[j].1.bytes@
                    == object_id(objects@[j]@),
        decreases objects.len() - i,
    {
        let o = objects[i].clone();
        let h = match crate::proto::Hash::try_from_typed_object(&o) {
            Ok(h) => h,
            Err(_) => crate::proto::Hash { bytes: [0u8; 32] },
        };
        out.push((o, h));
        i = i + 1;
    }
    out
}

/// The object a query for one object is answered with: the first one of the answer.
pub fn first_answer(answer: Vec<(TypedObject, crate::proto::Hash)>) -> (r: Result<
    TypedObject,
    QueryAnswerError,
>)
    ensures
        answer@.len() == 0 ==> r == Err::<TypedObject, QueryAnswerError>(
            QueryAnswerError::NoObjects,
        ),
        answer@.len() > 0 ==> (r matches Ok(o) && o@ == answer@[0].0@),
{
    if answer.len() == 0 {
        return Err(QueryAnswerError::NoObjects);
    }
    let first = answer[0].0.clone();
    Ok(first)
}

/// What an answer to a delete request amounts to: done where it holds some object.
pub fn delete_answer(answer: &Vec<(TypedObject, crate::proto::Hash)>) -> (r: Result<
    crate::proto::ResultObject,
    QueryAnswerError,
>)
    ensures
        answer@.len() > 0 ==> (r matches Ok(o) && o.result is Ok),
        answer@.len() == 0 ==> r == Err::<crate::proto::ResultObject, QueryAnswerError>(
            QueryAnswerError::NoObjects,
        ),
{
    if answer.len() > 0 {
        Ok(crate::proto::ResultObject { result: Ok(()) })
    } else {
        Err(QueryAnswerError::NoObjects)
    }
}

} // verus!
