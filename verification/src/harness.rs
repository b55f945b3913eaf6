//! The plan of the network test harness: which daemon requests set up the nodes of a test
//! scenario, and which request each action of the scenario makes.
use vstd::prelude::*;
use crate::node_store::{multiaddr_normal_form, parse_multiaddr};

verus! {

/// How much of a node the other nodes of a scenario need to know.
#[derive(Debug, Clone, Copy, PartialEq, Eq, Structural)]
pub enum NodeDefinitionLevel {
    /// Nothing: the node is not dialed.
    Hidden,
    /// Its peer identifier.
    NeedHash,
    /// Its peer identifier and its address.
    NeedAddress,
}

/// A node of a test scenario.
#[derive(Debug, Clone)]
pub struct NodeDefinition {
    pub node_id: u64,
    pub name: String,
    pub visibility: NodeDefinitionLevel,
    pub address: Option<String>,
}

/// A node that other nodes can dial: its scenario identifier, peer identifier, address and name.
#[derive(Debug, Clone)]
pub struct NodeInstance {
    pub node_id: u64,
    pub node_hash: String,
    pub node_adress: Option<String>,
    pub node_name: String,
}

/// A request of the harness to the daemon.
#[derive(Debug, Clone)]
pub enum HarnessRequest {
    NewNode { node_name: String },
    OverwriteNodeConfig { node_name: String, external_addresses: Vec<String> },
    StartNode { node_name: String },
    GetPeerId { node_name: String },
    Dial { node_name: String, peer_id: String, addr: String },
    PublishFile { node_name: String, path: String },
    DownloadFile { node_name: String, id: String },
}

/// The requests that set up the nodes of a scenario, in four rounds, each request with the
/// scenario identifier of its node, and the nodes that others can dial.
#[derive(Debug)]
pub struct CreationPlan {
    pub create: Vec<(u64, HarnessRequest)>,
    pub configure: Vec<(u64, HarnessRequest)>,
    pub start: Vec<(u64, HarnessRequest)>,
    pub identify: Vec<(u64, HarnessRequest)>,
    pub dialable: std::collections::HashMap<u64, NodeInstance>,
}

/// Other nodes need to dial this one.
pub open spec fn is_dialable(n: NodeDefinition) -> bool {
    n.visibility == NodeDefinitionLevel::NeedHash || n.visibility == NodeDefinitionLevel::NeedAddress
}

/// Other nodes need the address of this one.
pub open spec fn needs_address(n: NodeDefinition) -> bool {
    n.visibility == NodeDefinitionLevel::NeedAddress
}

/// The text of a node's address; the empty text where the definition gives none.
pub open spec fn address_text(n: NodeDefinition) -> Seq<char> {
    match n.address {
        Some(a) => a@,
        None => Seq::<char>::empty(),
    }
}

/// The index of the last dialable definition with identifier `id`; -1 where there is none.
pub open spec fn last_dialable(nodes: Seq<NodeDefinition>, id: u64) -> int
    decreases nodes.len(),
{
    if nodes.len() == 0 {
        -1
    } else if is_dialable(nodes.last()) && nodes.last().node_id == id {
        nodes.len() - 1
    } else {
        last_dialable(nodes.drop_last(), id)
    }
}

/// The index of the last definition with identifier `id` that needs its address; -1 where
/// there is none.
pub open spec fn last_needing_address(nodes: Seq<NodeDefinition>, id: u64) -> int
    decreases nodes.len(),
{
    if nodes.len() == 0 {
        -1
    } else if needs_address(nodes.last()) && nodes.last().node_id == id {
        nodes.len() - 1
    } else {
        last_needing_address(nodes.drop_last(), id)
    }
}

/// The dialable nodes `d`, as the plan sets them up before their peer identifiers are known:
/// one for each identifier of a dialable definition, named as the last such definition, with
/// no peer identifier yet, and with the address of the last definition with that identifier
/// that needs its address (none where no definition does).
pub open spec fn dialable_ok(nodes: Seq<NodeDefinition>, d: Map<u64, NodeInstance>) -> bool {
    &&& forall|id: u64| #[trigger] d.contains_key(id) <==> last_dialable(nodes, id) >= 0
    &&& forall|id: u64| #[trigger]
        d.contains_key(id) ==> {
            &&& d[id].node_id == id
            &&& d[id].node_hash@ == Seq::<char>::empty()
            &&& d[id].node_name@ == nodes[last_dialable(nodes, id)].name@
            &&& d[id].node_adress == if last_needing_address(nodes, id) >= 0 {
                nodes[last_needing_address(nodes, id)].address
            } else {
                None
            }
        }
}

/// Where the last definitions of an identifier stand, and how they grow by one definition.
proof fn lemma_last_indices(nodes: Seq<NodeDefinition>, id: u64)
    ensures
        -1 <= last_dialable(nodes, id) < nodes.len(),
        -1 <= last_needing_address(nodes, id) < nodes.len(),
        last_dialable(nodes, id) >= 0 ==> is_dialable(nodes[last_dialable(nodes, id)])
            && nodes[last_dialable(nodes, id)].node_id == id,
        last_needing_address(nodes, id) >= 0 ==> needs_address(
            nodes[last_needing_address(nodes, id)],
        ) && nodes[last_needing_address(nodes, id)].node_id == id,
        last_needing_address(nodes, id) >= 0 ==> last_dialable(nodes, id) >= 0,
    decreases nodes.len(),
{
    if nodes.len() > 0 {
        lemma_last_indices(nodes.drop_last(), id);
    }
}

fn clone_opt(o: &Option<String>) -> (r: Option<String>)
    ensures
        r == *o,
{
    match o {
        Some(s) => Some(s.clone()),
        None => None,
    }
}

/// The nodes that other nodes dial, by scenario identifier, as they are known before their
/// peer identifiers; a node that needs its address has the one its definition gives.
pub fn dialable_nodes(nodes: &Vec<NodeDefinition>) -> (r: std::collections::HashMap<u64, NodeInstance>)
    ensures
        dialable_ok(nodes@, r@),
{
    broadcast use vstd::std_specs::hash::group_hash_axioms;

    let mut dialable: std::collections::HashMap<u64, NodeInstance> = std::collections::HashMap::new();
    let mut i: usize = 0;
    proof {
        assert(dialable_ok(nodes@.take(0), dialable@));
    }
    while i < nodes.len()
        invariant
            i <= nodes@.len(),
            dialable_ok(nodes@.take(i as int), dialable@),
        decreases nodes.len() - i,
    {
        let n = &nodes[i];
        let ghost t = nodes@.take(i as int);
        let ghost t2 = nodes@.take(i + 1);
        let ghost before = dialable@;
        proof {
            assert(t2.drop_last() =~= t);
            assert(t2.last() == *n);
            assert forall|kk: int| 0 <= kk < t.len() implies #[trigger] t2[kk] == t[kk] by {}
        }
        let dial = match n.visibility {
            NodeDefinitionLevel::NeedHash => true,
            NodeDefinitionLevel::NeedAddress => true,
            NodeDefinitionLevel::Hidden => false,
        };
        if dial {
            let known = dialable.remove(&n.node_id);
            let address = match n.visibility {
                NodeDefinitionLevel::NeedAddress => clone_opt(&n.address),
                _ => match known {
                    Some(k) => k.node_adress,
                    None => None,
                },
            };
            let inst = NodeInstance {
                node_id: n.node_id,
                node_hash: String::new(),
                node_adress: address,
                node_name: n.name.clone(),
            };
            dialable.insert(n.node_id, inst);
            proof {
                lemma_last_indices(t, n.node_id);
                assert forall|id: u64| #[trigger] dialable@.contains_key(id) <==> last_dialable(t2, id)
                    >= 0 by {}
                assert forall|id: u64| #[trigger] dialable@.contains_key(id) implies {
                    &&& dialable@[id].node_id == id
                    &&& dialable@[id].node_hash@ == Seq::<char>::empty()
                    &&& dialable@[id].node_name@ == t2[last_dialable(t2, id)].name@
                    &&& dialable@[id].node_adress == if last_needing_address(t2, id) >= 0 {
                        t2[last_needing_address(t2, id)].address
                    } else {
                        None
                    }
                } by {
                    lemma_last_indices(t, id);
                    if id != n.node_id {
                        assert(before.contains_key(id));
                    }
                }
            }
        } else {
            proof {
                assert forall|id: u64| #[trigger] dialable@.contains_key(id) <==> last_dialable(t2, id)
                    >= 0 by {}
                assert forall|id: u64| #[trigger] dialable@.contains_key(id) implies {
                    &&& dialable@[id].node_id == id
                    &&& dialable@[id].node_hash@ == Seq::<char>::empty()
                    &&& dialable@[id].node_name@ == t2[last_dialable(t2, id)].name@
                    &&& dialable@[id].node_adress == if last_needing_address(t2, id) >= 0 {
                        t2[last_needing_address(t2, id)].address
                    } else {
                        None
                    }
                } by {
                    lemma_last_indices(t, id);
                }
            }
        }
        i = i + 1;
    }
    proof {
        assert(nodes@.take(nodes@.len() as int) =~= nodes@);
    }
    dialable
}

/// Every node that needs its address gives one that `Multiaddr::from_str` reads (the empty
/// text where it gives none).
pub open spec fn addresses_parse(nodes: Seq<NodeDefinition>) -> bool {
    forall|k: int|
        0 <= k < nodes.len() && needs_address(#[trigger] nodes[k]) ==> multiaddr_normal_form(
            address_text(nodes[k]),
        ) is Some
}

/// The configuration requests of the nodes that need their address, in order: the node's
/// identifier, its name, and the canonical text of its address.
pub open spec fn address_plan(nodes: Seq<NodeDefinition>) -> Seq<(u64, Seq<char>, Option<Seq<char>>)>
    decreases nodes.len(),
{
    if nodes.len() == 0 {
        Seq::empty()
    } else if needs_address(nodes.last()) {
        address_plan(nodes.drop_last()).push(
            (
                nodes.last().node_id,
                nodes.last().name@,
                multiaddr_normal_form(address_text(nodes.last())),
            ),
        )
    } else {
        address_plan(nodes.drop_last())
    }
}

/// The peer identifier requests of the dialable nodes, in order: the node's identifier and
/// its name.
pub open spec fn identify_plan(nodes: Seq<NodeDefinition>) -> Seq<(u64, Seq<char>)>
    decreases nodes.len(),
{
    if nodes.len() == 0 {
        Seq::empty()
    } else if is_dialable(nodes.last()) {
        identify_plan(nodes.drop_last()).push((nodes.last().node_id, nodes.last().name@))
    } else {
        identify_plan(nodes.drop_last())
    }
}

/// `r` is the plan that sets up the nodes `nodes`: each node is made and started, in order;
/// each node that needs its address gets a configuration holding exactly that address; the
/// peer identifier of each dialable node is asked for; and the dialable nodes are as
/// `dialable_ok` says.
pub open spec fn plan_ok(nodes: Seq<NodeDefinition>, r: CreationPlan) -> bool {
    &&& r.create@.len() == nodes.len()
    &&& r.start@.len() == nodes.len()
    &&& forall|i: int|
        0 <= i < nodes.len() ==> (#[trigger] r.create@[i]).0 == nodes[i].node_id && (
        r.create@[i].1 matches HarnessRequest::NewNode { node_name } && node_name@
            == nodes[i].name@)
    &&& forall|i: int|
        0 <= i < nodes.len() ==> (#[trigger] r.start@[i]).0 == nodes[i].node_id && (
        r.start@[i].1 matches HarnessRequest::StartNode { node_name } && node_name@
            == nodes[i].name@)
    &&& r.configure@.len() == address_plan(nodes).len()
    &&& forall|i: int|
        0 <= i < r.configure@.len() ==> (#[trigger] r.configure@[i]).0 == address_plan(nodes)[i].0
            && (r.configure@[i].1 matches HarnessRequest::OverwriteNodeConfig {
            node_name,
            external_addresses,
        } && node_name@ == address_plan(nodes)[i].1 && external_addresses@.len() == 1 && Some(
            external_addresses@[0]@,
        ) == address_plan(nodes)[i].2)
    &&& r.identify@.len() == identify_plan(nodes).len()
    &&& forall|i: int|
        0 <= i < r.identify@.len() ==> (#[trigger] r.identify@[i]).0 == identify_plan(nodes)[i].0
            && (r.identify@[i].1 matches HarnessRequest::GetPeerId { node_name } && node_name@
            == identify_plan(nodes)[i].1)
    &&& dialable_ok(nodes, r.dialable@)
}

/// The plan that sets up the nodes of a scenario: each node is made, those that need an
/// address get it (read as a multiaddress) in their configuration, each node is started, and
/// the peer identifiers of the dialable nodes are asked for. Every address that is needed
/// must read as a multiaddress.
pub fn creation_plan(nodes: &Vec<NodeDefinition>) -> (r: CreationPlan)
    requires
        addresses_parse(nodes@),
    ensures
        plan_ok(nodes@, r),
{
    let mut create: Vec<(u64, HarnessRequest)> = Vec::new();
    let mut start: Vec<(u64, HarnessRequest)> = Vec::new();
    let mut configure: Vec<(u64, HarnessRequest)> = Vec::new();
    let mut identify: Vec<(u64, HarnessRequest)> = Vec::new();
    let mut i: usize = 0;
    while i < nodes.len()
        invariant
            i <= nodes@.len(),
            addresses_parse(nodes@),
            create@.len() == i,
            start@.len() == i,
            forall|j: int|
                0 <= j < i ==> (#[trigger] create@[j]).0 == nodes@[j].node_id && (
                create@[j].1 matches HarnessRequest::NewNode { node_name } && node_name@
                    == nodes@[j].name@),
            forall|j: int|
                0 <= j < i ==> (#[trigger] start@[j]).0 == nodes@[j].node_id && (
                start@[j].1 matches HarnessRequest::StartNode { node_name } && node_name@
                    == nodes@[j].name@),
            configure@.len() == address_plan(nodes@.take(i as int)).len(),
            forall|j: int|
                0 <= j < configure@.len() ==> (#[trigger] configure@[j]).0 == address_plan(
                    nodes@.take(i as int),
                )[j].0 && (configure@[j].1 matches HarnessRequest::OverwriteNodeConfig {
                    node_name,
                    external_addresses,
                } && node_name@ == address_plan(nodes@.take(i as int))[j].1
                    && external_addresses@.len() == 1 && Some(external_addresses@[0]@)
                    == address_plan(nodes@.take(i as int))[j].2),
            identify@.len() == identify_plan(nodes@.take(i as int)).len(),
            forall|j: int|
                0 <= j < identify@.len() ==> (#[trigger] identify@[j]).0 == identify_plan(
                    nodes@.take(i as int),
                )[j].0 && (identify@[j].1 matches HarnessRequest::GetPeerId { node_name }
                    && node_name@ == identify_plan(nodes@.take(i as int))[j].1),
        decreases nodes.len() - i,
    {
        let n = &nodes[i];
        let ghost t = nodes@.take(i as int);
        let ghost t2 = nodes@.take(i + 1);
        proof {
            assert(t2.drop_last() =~= t);
            assert(t2.last() == *n);
        }
        create.push((n.node_id, HarnessRequest::NewNode { node_name: n.name.clone() }));
        start.push((n.node_id, HarnessRequest::StartNode { node_name: n.name.clone() }));
        let dial = match n.visibility {
            NodeDefinitionLevel::NeedHash => true,
            NodeDefinitionLevel::NeedAddress => true,
            NodeDefinitionLevel::Hidden => false,
        };
        if let NodeDefinitionLevel::NeedAddress = n.visibility {
            let text = match &n.address {
                Some(a) => a.clone(),
                None => String::new(),
            };
            proof {
                assert(needs_address(nodes@[i as int]));
            }
            let parsed = parse_multiaddr(text.as_str());
            let a = parsed.unwrap();
            let mut addrs: Vec<String> = Vec::new();
            addrs.push(a);
            configure.push(
                (
                    n.node_id,
                    HarnessRequest::OverwriteNodeConfig {
                        node_name: n.name.clone(),
                        external_addresses: addrs,
                    },
                ),
            );
        }
        if dial {
            identify.push((n.node_id, HarnessRequest::GetPeerId { node_name: n.name.clone() }));
        }
        i = i + 1;
    }
    proof {
        assert(nodes@.take(nodes@.len() as int) =~= nodes@);
    }
    let dialable = dialable_nodes(nodes);
    CreationPlan { create, configure, start, identify, dialable }
}

/// The plan of `creation_plan`, where every address that is needed reads as a multiaddress;
/// `None` where one does not (the harness cannot set such a scenario up).
pub fn checked_creation_plan(nodes: &Vec<NodeDefinition>) -> (r: Option<CreationPlan>)
    ensures
        r is Some <==> addresses_parse(nodes@),
        r matches Some(p) ==> plan_ok(nodes@, p),
{
    let mut i: usize = 0;
    while i < nodes.len()
        invariant
            i <= nodes@.len(),
            forall|k: int|
                0 <= k < i && needs_address(#[trigger] nodes@[k]) ==> multiaddr_normal_form(
                    address_text(nodes@[k]),
                ) is Some,
        decreases nodes.len() - i,
    {
        let n = &nodes[i];
        if let NodeDefinitionLevel::NeedAddress = n.visibility {
            let text = match &n.address {
                Some(a) => a.clone(),
                None => String::new(),
            };
            if parse_multiaddr(text.as_str()).is_none() {
                proof {
                    assert(needs_address(nodes@[i as int]));
                }
                return None;
            }
        }
        i = i + 1;
    }
    Some(creation_plan(nodes))
}

/// Records the peer identifier `hash` that the node `node_id` answered with; `false`, with
/// nothing changed, where the node is not among the dialable ones.
pub fn record_peer_id(
    dialable: &mut std::collections::HashMap<u64, NodeInstance>,
    node_id: u64,
    hash: String,
) -> (r: bool)
    ensures
        r == old(dialable)@.contains_key(node_id),
        !r ==> final(dialable)@ == old(dialable)@,
        r ==> final(dialable)@.dom() == old(dialable)@.dom() && forall|id: u64|
            #[trigger] final(dialable)@.contains_key(id) && id != node_id ==> final(dialable)@[id]
                == old(dialable)@[id],
        r ==> final(dialable)@[node_id].node_hash@ == hash@ && final(dialable)@[node_id].node_id
            == old(dialable)@[node_id].node_id && final(dialable)@[node_id].node_name == old(
            dialable,
        )@[node_id].node_name && final(dialable)@[node_id].node_adress == old(
            dialable,
        )@[node_id].node_adress,
{
    broadcast use vstd::std_specs::hash::group_hash_axioms;

    match dialable.remove(&node_id) {
        None => false,
        Some(inst) => {
            let updated = NodeInstance {
                node_id: inst.node_id,
                node_hash: hash,
                node_adress: inst.node_adress,
                node_name: inst.node_name,
            };
            dialable.insert(node_id, updated);
            proof {
                assert(dialable@.dom() =~= old(dialable)@.dom());
            }
            true
        },
    }
}

/// What an action of a scenario does.
#[derive(Debug, Clone)]
pub enum ActionDetails {
    /// Dial the node with this scenario identifier.
    Dial { dialed_node_id: u64 },
    /// Publish the file named by this hash.
    PublishObject { hash: String },
    /// Get the object with this hash.
    GetObject { object_hash: String },
}

/// A node that can be dialed, as the scenario gives it: its identifier, peer and address.
#[derive(Debug, Clone)]
pub struct CallableNode {
    pub node_id: u64,
    pub node_hash: String,
    pub node_address: String,
}

fn find_callable(nodes: &Vec<CallableNode>, id: u64) -> (r: usize)
    requires
        exists|i: int| 0 <= i < nodes@.len() && #[trigger] nodes@[i].node_id == id,
    ensures
        r < nodes@.len() && nodes@[r as int].node_id == id,
{
    let mut i: usize = 0;
    while i < nodes.len()
        invariant
            i <= nodes@.len(),
            forall|j: int| 0 <= j < i ==> #[trigger] nodes@[j].node_id != id,
            exists|k: int| 0 <= k < nodes@.len() && #[trigger] nodes@[k].node_id == id,
        decreases nodes.len() - i,
    {
        if nodes[i].node_id == id {
            return i;
        }
        i = i + 1;
    }
    proof {
        let k = choose|k: int| 0 <= k < nodes@.len() && #[trigger] nodes@[k].node_id == id;
        assert(nodes@[k].node_id != id);
    }
    0
}

/// The request that the action `details` of the node `node_name` makes; a dial goes to the
/// peer and address of the dialed node, which must be among the callable ones.
pub fn action_request(node_name: String, details: &ActionDetails, callable_nodes: &Vec<CallableNode>) -> (r:
    HarnessRequest)
    requires
        details matches ActionDetails::Dial { dialed_node_id } ==> exists|i: int|
            0 <= i < callable_nodes@.len() && #[trigger] callable_nodes@[i].node_id == dialed_node_id,
    ensures
        match details {
            ActionDetails::Dial { dialed_node_id } => r matches HarnessRequest::Dial {
                node_name: n,
                peer_id,
                addr,
            } && n@ == node_name@ && exists|i: int|
                0 <= i < callable_nodes@.len() && #[trigger] callable_nodes@[i].node_id
                    == dialed_node_id && callable_nodes@[i].node_hash@ == peer_id@
                    && callable_nodes@[i].node_address@ == addr@,
            ActionDetails::PublishObject { hash } => r matches HarnessRequest::PublishFile {
                node_name: n,
                path,
            } && n@ == node_name@ && path@ == hash@,
            ActionDetails::GetObject { object_hash } => r matches HarnessRequest::DownloadFile {
                node_name: n,
                id,
            } && n@ == node_name@ && id@ == object_hash@,
        },
{
    match details {
        ActionDetails::Dial { dialed_node_id } => {
            let i = find_callable(callable_nodes, *dialed_node_id);
            let peer_id = callable_nodes[i].node_hash.clone();
            let addr = callable_nodes[i].node_address.clone();
            HarnessRequest::Dial { node_name, peer_id, addr }
        },
        ActionDetails::PublishObject { hash } => HarnessRequest::PublishFile {
            node_name,
            path: hash.clone(),
        },
        ActionDetails::GetObject { object_hash } => HarnessRequest::DownloadFile {
            node_name,
            id: object_hash.clone(),
        },
    }
}

} // verus!
