//! The store of nodes on disk: one directory per node, holding its configuration and keypair,
//! and what a node's configuration holds.
use vstd::prelude::*;
use crate::configs::{my_home_dir, opt_view};
use crate::identity::{keypair_decodes, keypair_is_valid};
use crate::paths::{join, listed, path_join};

verus! {

/// The directory, under the home directory, that holds the nodes by default.
pub const DEFAULT_NODES_DIRECTORY_NAME: &'static str = ".liberum-neto";

/// The name of the configuration file in a node's directory.
pub const NODE_CONFIG_FILE_NAME: &'static str = "config.json";

/// The name of the keypair file in a node's directory.
pub const NODE_KEY_FILE_NAME: &'static str = "keypair";

/// The canonical text of the peer identifier that `PeerId::from_str` reads from `s`, if it
/// reads one.
pub uninterp spec fn peer_id_normal_form(s: Seq<char>) -> Option<Seq<char>>;

/// The canonical text of the address that `Multiaddr::from_str` reads from `s`, if it reads
/// one.
pub uninterp spec fn multiaddr_normal_form(s: Seq<char>) -> Option<Seq<char>>;

/// Calls `libp2p::PeerId::from_str(s)` and, where it succeeds, `to_base58` on the identifier.
/// Trusted: the outcome is `peer_id_normal_form(s)`.
#[verifier::external_body]
pub(crate) fn parse_peer_id(s: &str) -> (r: Option<String>)
    ensures
        opt_view(r) == peer_id_normal_form(s@),
{
    match <libp2p::PeerId as std::str::FromStr>::from_str(s) {
        Ok(p) => Some(p.to_base58()),
        Err(_) => None,
    }
}

/// Calls `libp2p::Multiaddr::from_str(s)` and, where it succeeds, `to_string` on the address.
/// Trusted: the outcome is `multiaddr_normal_form(s)`.
#[verifier::external_body]
pub(crate) fn parse_multiaddr(s: &str) -> (r: Option<String>)
    ensures
        opt_view(r) == multiaddr_normal_form(s@),
{
    match <libp2p::Multiaddr as std::str::FromStr>::from_str(s) {
        Ok(a) => Some(a.to_string()),
        Err(_) => None,
    }
}

/// A request to add a bootstrap node to the configuration of the node `name`.
#[derive(Debug, Clone)]
pub struct UpdateNodeConfig {
    pub name: String,
    pub bootstrap_node_id: String,
    pub bootstrap_node_addr: String,
}

/// Why the store could not do what it was asked.
#[derive(Debug, Clone, PartialEq, Eq)]
pub enum NodeStoreError {
    NodeDoesNotExist,
    OtherError { err: String },
}

/// A node to connect to first: its peer identifier and its address, both in canonical text.
#[derive(Debug, Clone)]
pub struct BootstrapNode {
    pub id: String,
    pub addr: String,
}

/// The configuration of a node: its bootstrap nodes and the addresses it announces.
#[derive(Debug, Clone)]
pub struct NodeConfig {
    pub bootstrap_nodes: Vec<BootstrapNode>,
    pub external_addresses: Vec<String>,
}

/// What the store keeps of a node: its name, its keypair (protobuf encoding) and its
/// configuration.
#[derive(Debug)]
pub struct NodeSnapshot {
    pub name: String,
    pub keypair: Vec<u8>,
    pub config: NodeConfig,
}

/// Where a node is kept: its directory and, in it, its configuration file and keypair file.
#[derive(Debug, Clone)]
pub struct NodeFiles {
    pub dir: String,
    pub config: String,
    pub key: String,
}

impl BootstrapNode {
    /// Reads a bootstrap node from the text of its peer identifier and of its address.
    pub fn from_strings(peer_id: &str, addr: &str) -> (r: Result<BootstrapNode, NodeStoreError>)
        ensures
            match (peer_id_normal_form(peer_id@), multiaddr_normal_form(addr@)) {
                (Some(i), Some(a)) => r matches Ok(b) && b.id@ == i && b.addr@ == a,
                _ => r is Err,
            },
    {
        let id = match parse_peer_id(peer_id) {
            Some(i) => i,
            None => {
                return Err(NodeStoreError::OtherError { err: "invalid peer id".to_owned() });
            },
        };
        let addr = match parse_multiaddr(addr) {
            Some(a) => a,
            None => {
                return Err(NodeStoreError::OtherError { err: "invalid address".to_owned() });
            },
        };
        Ok(BootstrapNode { id, addr })
    }
}

impl NodeConfig {
    /// A configuration with the given bootstrap nodes and external addresses.
    pub fn new(bootstrap_nodes: Vec<BootstrapNode>, external_addresses: Vec<String>) -> (r:
        NodeConfig)
        ensures
            r.bootstrap_nodes@ == bootstrap_nodes@,
            r.external_addresses@ == external_addresses@,
    {
        NodeConfig { bootstrap_nodes, external_addresses }
    }

    /// The configuration of a new node: no bootstrap nodes, no external addresses.
    pub fn empty() -> (r: NodeConfig)
        ensures
            r.bootstrap_nodes@.len() == 0,
            r.external_addresses@.len() == 0,
    {
        NodeConfig { bootstrap_nodes: Vec::new(), external_addresses: Vec::new() }
    }

    /// Adds the bootstrap node of `update` to this configuration, after those it has; refused,
    /// with the configuration unchanged, where its identifier or address does not parse.
    pub fn add_bootstrap_node(&mut self, update: &UpdateNodeConfig) -> (r: Result<(), NodeStoreError>)
        ensures
            final(self).external_addresses@ == old(self).external_addresses@,
            match (
                peer_id_normal_form(update.bootstrap_node_id@),
                multiaddr_normal_form(update.bootstrap_node_addr@),
            ) {
                (Some(i), Some(a)) => r is Ok && final(self).bootstrap_nodes@.len()
                    == old(self).bootstrap_nodes@.len() + 1 && final(self).bootstrap_nodes@.take(
                    old(self).bootstrap_nodes@.len() as int,
                ) == old(self).bootstrap_nodes@ && final(self).bootstrap_nodes@.last().id@ == i
                    && final(self).bootstrap_nodes@.last().addr@ == a,
                _ => r is Err && final(self).bootstrap_nodes@ == old(self).bootstrap_nodes@,
            },
    {
        match BootstrapNode::from_strings(
            update.bootstrap_node_id.as_str(),
            update.bootstrap_node_addr.as_str(),
        ) {
            Ok(b) => {
                self.bootstrap_nodes.push(b);
                proof {
                    assert(self.bootstrap_nodes@.take(old(self).bootstrap_nodes@.len() as int)
                        =~= old(self).bootstrap_nodes@);
                }
                Ok(())
            },
            Err(e) => Err(e),
        }
    }
}

/// The text of an optional string slice.
pub open spec fn opt_str_view(s: Option<&str>) -> Option<Seq<char>> {
    match s {
        Some(t) => Some(t@),
        None => None,
    }
}

impl NodeConfig {
    /// Adds the address `addr` to those the node announces, after them; refused, with the
    /// configuration unchanged, where it does not parse.
    pub fn add_external_address(&mut self, addr: &str) -> (r: Result<(), NodeStoreError>)
        ensures
            final(self).bootstrap_nodes@ == old(self).bootstrap_nodes@,
            match multiaddr_normal_form(addr@) {
                Some(a) => r is Ok && crate::node_ops::texts(final(self).external_addresses@)
                    == crate::node_ops::texts(old(self).external_addresses@).push(a),
                None => r is Err && final(self).external_addresses@ == old(self).external_addresses@,
            },
    {
        match parse_multiaddr(addr) {
            Some(a) => {
                let ghost before = self.external_addresses@;
                self.external_addresses.push(a);
                proof {
                    assert(crate::node_ops::texts(self.external_addresses@) =~= crate::node_ops::texts(
                        before,
                    ).push(a@));
                }
                Ok(())
            },
            None => Err(NodeStoreError::OtherError { err: "invalid address".to_owned() }),
        }
    }
}

/// The directory that holds the nodes: `path_override`, or the default name, under `home`.
pub open spec fn store_dir(path_override: Option<Seq<char>>, home: Seq<char>) -> Seq<char> {
    match path_override {
        Some(p) => path_join(home, p),
        None => path_join(home, DEFAULT_NODES_DIRECTORY_NAME@),
    }
}

/// Stores nodes, each in a directory of its own under `store_dir_path`.
#[derive(Debug)]
pub struct NodeStore {
    store_dir_path: String,
}

impl NodeStore {
    /// The directory that holds the nodes.
    pub closed spec fn dir(&self) -> Seq<char> {
        self.store_dir_path@
    }

    /// The directory of the node `name`.
    pub open spec fn node_dir(&self, name: Seq<char>) -> Seq<char> {
        path_join(self.dir(), name)
    }

    /// The configuration file of the node `name`.
    pub open spec fn node_config(&self, name: Seq<char>) -> Seq<char> {
        path_join(self.node_dir(name), NODE_CONFIG_FILE_NAME@)
    }

    /// The keypair file of the node `name`.
    pub open spec fn node_key(&self, name: Seq<char>) -> Seq<char> {
        path_join(self.node_dir(name), NODE_KEY_FILE_NAME@)
    }

    /// A store over the directory `store_dir_path` (which the caller has made sure exists).
    pub fn new(store_dir_path: &str) -> (r: NodeStore)
        ensures
            r.dir() == store_dir_path@,
    {
        NodeStore { store_dir_path: store_dir_path.to_owned() }
    }

    /// The directory that holds the nodes.
    pub fn store_dir_path(&self) -> (r: &str)
        ensures
            r@ == self.dir(),
    {
        self.store_dir_path.as_str()
    }

    /// The directory that holds the nodes, given the home directory `home` (if there is one).
    pub fn store_dir_from_home(path_override: Option<&str>, home: Option<String>) -> (r: Result<
        String,
        NodeStoreError,
    >)
        ensures
            match home {
                Some(h) => r matches Ok(p) && p@ == store_dir(opt_str_view(path_override), h@),
                None => r is Err,
            },
    {
        match home {
            None => Err(NodeStoreError::OtherError { err: "no home directory".to_owned() }),
            Some(h) => match path_override {
                Some(o) => Ok(join(h.as_str(), o)),
                None => Ok(join(h.as_str(), DEFAULT_NODES_DIRECTORY_NAME)),
            },
        }
    }

    /// The directory that holds the nodes, under the home directory of the user.
    pub fn resolve_store_dir_path(path_override: Option<&str>) -> (r: Result<String, NodeStoreError>)
        ensures
            r matches Ok(p) ==> exists|h: Seq<char>| p@ == #[trigger] store_dir(
                opt_str_view(path_override),
                h,
            ),
    {
        match my_home_dir() {
            Err(_) => Err(NodeStoreError::OtherError { err: "home directory lookup failed".to_owned() }),
            Ok(home) => Self::store_dir_from_home(path_override, home),
        }
    }

    /// The directory of the node `name`.
    pub fn resolve_node_dir_path(&self, name: &str) -> (r: String)
        ensures
            r@ == self.node_dir(name@),
    {
        join(self.store_dir_path.as_str(), name)
    }

    /// The configuration file of the node `name`.
    pub fn resolve_node_config_path(&self, name: &str) -> (r: String)
        ensures
            r@ == self.node_config(name@),
    {
        let dir = self.resolve_node_dir_path(name);
        join(dir.as_str(), NODE_CONFIG_FILE_NAME)
    }

    /// The keypair file of the node `name`.
    pub fn resolve_node_key_path(&self, name: &str) -> (r: String)
        ensures
            r@ == self.node_key(name@),
    {
        let dir = self.resolve_node_dir_path(name);
        join(dir.as_str(), NODE_KEY_FILE_NAME)
    }

    /// The files of the node `name`.
    pub fn node_files(&self, name: &str) -> (r: NodeFiles)
        ensures
            r.dir@ == self.node_dir(name@),
            r.config@ == self.node_config(name@),
            r.key@ == self.node_key(name@),
    {
        NodeFiles {
            dir: self.resolve_node_dir_path(name),
            config: self.resolve_node_config_path(name),
            key: self.resolve_node_key_path(name),
        }
    }

    /// Whether the node `name` exists, given the paths that exist: its directory is one of
    /// them.
    pub fn node_exists(&self, name: &str, existing: &Vec<String>) -> (r: bool)
        ensures
            r == listed(existing@, self.node_dir(name@)),
    {
        let dir = self.resolve_node_dir_path(name);
        crate::paths::contains_path(existing, &dir)
    }

    /// Where to read the node `name` from, given whether its directory exists and whether it is
    /// a directory.
    pub fn load_node_files(&self, name: &str, dir_exists: bool, is_dir: bool) -> (r: Result<
        NodeFiles,
        NodeStoreError,
    >)
        ensures
            !dir_exists ==> r == Err::<NodeFiles, NodeStoreError>(
                NodeStoreError::NodeDoesNotExist,
            ),
            dir_exists && !is_dir ==> r matches Err(NodeStoreError::OtherError { .. }),
            dir_exists && is_dir ==> (r matches Ok(f) && f.dir@ == self.node_dir(name@)
                && f.config@ == self.node_config(name@) && f.key@ == self.node_key(name@)),
    {
        if !dir_exists {
            return Err(NodeStoreError::NodeDoesNotExist);
        }
        if !is_dir {
            return Err(
                NodeStoreError::OtherError { err: "node_dir_path is not a directory".to_owned() },
            );
        }
        Ok(self.node_files(name))
    }

    /// The node `name` made of what was read from its files; refused where the keypair bytes
    /// are not an encoded keypair.
    pub fn snapshot_from_parts(name: String, config: NodeConfig, key_bytes: Vec<u8>) -> (r: Result<
        NodeSnapshot,
        NodeStoreError,
    >)
        ensures
            keypair_decodes(key_bytes@) ==> (r matches Ok(s) && s.name@ == name@ && s.keypair@
                == key_bytes@ && s.config.bootstrap_nodes@ == config.bootstrap_nodes@
                && s.config.external_addresses@ == config.external_addresses@),
            !keypair_decodes(key_bytes@) ==> r matches Err(NodeStoreError::OtherError { .. }),
    {
        if !keypair_is_valid(key_bytes.as_slice()) {
            return Err(
                NodeStoreError::OtherError {
                    err: "could not read keypair from protobuf encoded bytes".to_owned(),
                },
            );
        }
        Ok(NodeSnapshot { name, keypair: key_bytes, config })
    }

    /// Where to write the node of `snapshot`, given whether its directory is a directory (after
    /// it was made where it was missing).
    pub fn store_node_files(&self, snapshot: &NodeSnapshot, is_dir: bool) -> (r: Result<
        NodeFiles,
        NodeStoreError,
    >)
        ensures
            !is_dir ==> r matches Err(NodeStoreError::OtherError { .. }),
            is_dir ==> (r matches Ok(f) && f.dir@ == self.node_dir(snapshot.name@) && f.config@
                == self.node_config(snapshot.name@) && f.key@ == self.node_key(snapshot.name@)),
    {
        if !is_dir {
            return Err(
                NodeStoreError::OtherError { err: "node dir path is not a directory".to_owned() },
            );
        }
        Ok(self.node_files(snapshot.name.as_str()))
    }

    /// The configuration file of the node `name`, to read or overwrite; refused where the node
    /// does not exist.
    pub fn existing_node_config_path(&self, name: &str, existing: &Vec<String>) -> (r: Result<
        String,
        NodeStoreError,
    >)
        ensures
            listed(existing@, self.node_dir(name@)) ==> (r matches Ok(p) && p@ == self.node_config(
                name@,
            )),
            !listed(existing@, self.node_dir(name@)) ==> r == Err::<String, NodeStoreError>(
                NodeStoreError::NodeDoesNotExist,
            ),
    {
        if !self.node_exists(name, existing) {
            return Err(NodeStoreError::NodeDoesNotExist);
        }
        Ok(self.resolve_node_config_path(name))
    }
}

} // verus!

verus! {

/// Why a node snapshot could not be built.
#[derive(Debug, Clone, Copy, PartialEq, Eq, Structural)]
pub enum NodeBuildError {
    NameRequired,
    KeypairRequired,
}

/// Gathers the parts of a node: its name and keypair are required, its configuration is
/// optional.
#[derive(Debug)]
pub struct NodeBuilder {
    name: Option<String>,
    keypair: Option<Vec<u8>>,
    config: Option<NodeConfig>,
}

impl Default for NodeBuilder {
    fn default() -> (r: Self)
        ensures
            r.name_spec() is None,
            r.keypair_spec() is None,
            r.has_config() == false,
            r.config_spec() == (Seq::<BootstrapNode>::empty(), Seq::<String>::empty()),
    {
        NodeBuilder { name: None, keypair: None, config: None }
    }
}

impl NodeBuilder {
    /// The name given, if any.
    pub closed spec fn name_spec(&self) -> Option<Seq<char>> {
        crate::configs::opt_view(self.name)
    }

    /// The keypair given, if any.
    pub closed spec fn keypair_spec(&self) -> Option<Seq<u8>> {
        match self.keypair {
            Some(k) => Some(k@),
            None => None,
        }
    }

    /// Whether a configuration was given.
    pub closed spec fn has_config(&self) -> bool {
        self.config is Some
    }

    /// The configuration given, where there is one.
    pub closed spec fn config_spec(&self) -> (Seq<BootstrapNode>, Seq<String>) {
        match self.config {
            Some(c) => (c.bootstrap_nodes@, c.external_addresses@),
            None => (seq![], seq![]),
        }
    }

    /// Sets the name.
    pub fn name(self, name: String) -> (r: Self)
        ensures
            r.name_spec() == Some(name@),
            r.keypair_spec() == self.keypair_spec(),
            r.has_config() == self.has_config(),
            r.config_spec() == self.config_spec(),
    {
        NodeBuilder { name: Some(name), keypair: self.keypair, config: self.config }
    }

    /// Sets the keypair (its protobuf encoding).
    pub fn keypair(self, keypair: Vec<u8>) -> (r: Self)
        ensures
            r.keypair_spec() == Some(keypair@),
            r.name_spec() == self.name_spec(),
            r.has_config() == self.has_config(),
            r.config_spec() == self.config_spec(),
    {
        NodeBuilder { name: self.name, keypair: Some(keypair), config: self.config }
    }

    /// Sets the configuration.
    pub fn config(self, config: NodeConfig) -> (r: Self)
        ensures
            r.has_config(),
            r.config_spec() == (config.bootstrap_nodes@, config.external_addresses@),
            r.name_spec() == self.name_spec(),
            r.keypair_spec() == self.keypair_spec(),
    {
        NodeBuilder { name: self.name, keypair: self.keypair, config: Some(config) }
    }

    /// The snapshot of the node: refused where the name or the keypair is missing; without a
    /// configuration, the node has the empty one.
    pub fn build_snapshot(self) -> (r: Result<NodeSnapshot, NodeBuildError>)
        ensures
            self.name_spec() is None ==> r == Err::<NodeSnapshot, NodeBuildError>(
                NodeBuildError::NameRequired,
            ),
            self.name_spec() is Some && self.keypair_spec() is None ==> r == Err::<
                NodeSnapshot,
                NodeBuildError,
            >(NodeBuildError::KeypairRequired),
            (self.name_spec() is Some && self.keypair_spec() is Some) ==> (r matches Ok(s) && Some(
                s.name@,
            ) == self.name_spec() && Some(s.keypair@) == self.keypair_spec() && (
            s.config.bootstrap_nodes@,
            s.config.external_addresses@,
            ) == self.config_spec()),
            r matches Ok(s) ==> (!self.has_config() ==> s.config.bootstrap_nodes@.len() == 0
                && s.config.external_addresses@.len() == 0),
    {
        let name = match self.name {
            Some(n) => n,
            None => {
                return Err(NodeBuildError::NameRequired);
            },
        };
        let keypair = match self.keypair {
            Some(k) => k,
            None => {
                return Err(NodeBuildError::KeypairRequired);
            },
        };
        let config = match self.config {
            Some(c) => c,
            None => NodeConfig::empty(),
        };
        proof {
            assert(config.bootstrap_nodes@ =~= self.config_spec().0);
            assert(config.external_addresses@ =~= self.config_spec().1);
        }
        Ok(NodeSnapshot { name, keypair, config })
    }
}

} // verus!
