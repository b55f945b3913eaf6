//! Plain types that the daemon, its nodes and its user interface exchange.
use vstd::prelude::*;
use crate::identity::{keypair_decodes, keypair_public, public_key_of};

verus! {

/// A request of the user interface.
#[derive(Debug, Clone)]
pub enum UIMessage {
    GenerateConfig {},
    LoadConfig { path: String },
}

/// A message that asks a node for a snapshot of itself.
#[derive(Debug, Clone, Copy)]
pub struct GetSnapshot;

/// Something a node shares in the network.
#[derive(Debug, Clone)]
pub enum SharedResource {
    File { path: String },
}

/// A request for a file by its identifier.
#[derive(Debug, Clone)]
pub struct FileRequest {
    pub id: Vec<u8>,
}

/// The answer to a file request: the file's bytes, or nothing where it was not found.
#[derive(Debug, Clone)]
pub struct FileResponse {
    pub data: Option<Vec<u8>>,
}

/// Why a file could not be had.
#[derive(Debug, Clone, Copy, PartialEq, Eq, Structural)]
pub enum FileShareError {
    NotFound,
}

impl FileResponse {
    /// The file's bytes; an error where the file was not found.
    pub fn into_result(self) -> (r: Result<Vec<u8>, FileShareError>)
        ensures
            match self.data {
                Some(d) => r matches Ok(v) && v@ == d@,
                None => r == Err::<Vec<u8>, FileShareError>(FileShareError::NotFound),
            },
    {
        match self.data {
            Some(d) => Ok(d),
            None => Err(FileShareError::NotFound),
        }
    }
}

/// The text (Base58) of the peer identifier of the public key encoded as `pk`, where `pk`
/// encodes one.
pub uninterp spec fn peer_id_text_of(pk: Seq<u8>) -> Option<Seq<char>>;

/// Calls `PublicKey::try_decode_protobuf(pk)`, then `PeerId::from_public_key` and `to_base58`
/// on the key. Trusted: the outcome is `peer_id_text_of(pk)`.
#[verifier::external_body]
pub(crate) fn peer_id_text(pk: &[u8]) -> (r: Option<String>)
    ensures
        crate::configs::opt_view(r) == peer_id_text_of(pk@),
{
    match libp2p::identity::PublicKey::try_decode_protobuf(pk) {
        Ok(p) => Some(libp2p::PeerId::from_public_key(&p).to_base58()),
        Err(_) => None,
    }
}

/// What the daemon tells of a node.
#[derive(Debug, Clone)]
pub struct NodeInfo {
    pub name: String,
    pub peer_id: String,
    pub is_running: bool,
    pub config_addresses: Vec<String>,
    pub running_addresses: Vec<String>,
}

/// Why a node could not be described.
#[derive(Debug, Clone, Copy, PartialEq, Eq, Structural)]
pub enum NodeInfoError {
    /// The node's keypair is not an encoded keypair.
    InvalidKeypair,
}

impl NodeInfo {
    /// Describes the node `name` with keypair `keypair`: its peer identifier, whether it runs,
    /// the addresses of its configuration, and the addresses it listens on, which only a
    /// running node has.
    pub fn describe(
        name: String,
        keypair: &[u8],
        is_running: bool,
        config_addresses: Vec<String>,
        running_addresses: Vec<String>,
    ) -> (r: Result<NodeInfo, NodeInfoError>)
        ensures
            keypair_decodes(keypair@) ==> (r matches Ok(i) && i.name@ == name@ && Some(i.peer_id@)
                == peer_id_text_of(public_key_of(keypair@)) && i.is_running == is_running
                && i.config_addresses@ == config_addresses@ && (if is_running {
                i.running_addresses@ == running_addresses@
            } else {
                i.running_addresses@.len() == 0
            })),
            !keypair_decodes(keypair@) ==> r == Err::<NodeInfo, NodeInfoError>(
                NodeInfoError::InvalidKeypair,
            ),
    {
        let pk = match keypair_public(keypair) {
            Some(pk) => pk,
            None => {
                return Err(NodeInfoError::InvalidKeypair);
            },
        };
        let peer_id = match peer_id_text(pk.as_slice()) {
            Some(p) => p,
            None => {
                return Err(NodeInfoError::InvalidKeypair);
            },
        };
        let running_addresses = if is_running {
            running_addresses
        } else {
            Vec::new()
        };
        Ok(NodeInfo { name, peer_id, is_running, config_addresses, running_addresses })
    }
}

/// A row of the table of nodes: a node's name, peer, state and first addresses.
#[derive(Debug, Clone)]
pub struct NodeInfoRow {
    pub name: String,
    pub peer_id: String,
    pub is_running: bool,
    pub first_cfg_address: String,
    pub first_run_address: String,
}

/// The first of the texts, or `N/A` where there is none.
pub open spec fn first_or_na(s: Seq<String>) -> Seq<char> {
    if s.len() > 0 {
        s[0]@
    } else {
        "N/A"@
    }
}

fn first_or_na_exec(s: &Vec<String>) -> (r: String)
    ensures
        r@ == first_or_na(s@),
{
    if s.len() > 0 {
        s[0].clone()
    } else {
        "N/A".to_owned()
    }
}

impl NodeInfoRow {
    /// The row of a node: its first configured and first running address, `N/A` where it has
    /// none.
    pub fn from_info(value: &NodeInfo) -> (r: NodeInfoRow)
        ensures
            r.name@ == value.name@,
            r.peer_id@ == value.peer_id@,
            r.is_running == value.is_running,
            r.first_cfg_address@ == first_or_na(value.config_addresses@),
            r.first_run_address@ == first_or_na(value.running_addresses@),
    {
        NodeInfoRow {
            name: value.name.clone(),
            peer_id: value.peer_id.clone(),
            is_running: value.is_running,
            first_cfg_address: first_or_na_exec(&value.config_addresses),
            first_run_address: first_or_na_exec(&value.running_addresses),
        }
    }
}

} // verus!
