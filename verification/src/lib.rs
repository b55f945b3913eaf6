use vstd::prelude::*;

pub mod be_bytes;
pub mod base58;
pub mod base64;
pub mod configs;
pub mod file_id;
pub mod fragmentation;
pub mod harness;
pub mod hashing;
pub mod identity;
pub mod key;
pub mod modules;
pub mod node_ops;
pub mod node_store;
pub mod parser;
pub mod paths;
pub mod proto;
pub mod registry;
pub mod runner;
pub mod tagged;
pub mod types;
pub mod wire;
pub mod vault;

verus! {

} // verus!
