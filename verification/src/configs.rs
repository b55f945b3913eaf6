//! Where the configurations of nodes live on disk, and what a configuration holds.
use vstd::prelude::*;
use crate::identity::{generate_keypair, keypair_decodes, keypair_is_valid};
use crate::paths::{join, listed, path_join};

verus! {

/// The directory, under the home directory, that holds the nodes by default.
pub const CONFIG_DIRECTORY_NAME: &'static str = ".liberum-neto";

/// The name of a node's configuration file inside its directory.
pub const CONFIG_FILE_NAME: &'static str = "config.json";

/// `homedir::GetHomeError`, the failure to look the home directory up.
#[verifier::external_type_specification]
#[verifier::external_body]
pub struct ExGetHomeError(homedir::GetHomeError);

/// Calls `homedir::my_home()` and takes the path it found as text. Trusted, with nothing stated
/// of the result: it depends on the `HOME` variable and the user database of the machine.
#[verifier::external_body]
pub(crate) fn my_home_dir() -> (r: Result<Option<String>, homedir::GetHomeError>) {
    match homedir::my_home() {
        Ok(Some(p)) => Ok(Some(p.to_string_lossy().into_owned())),
        Ok(None) => Ok(None),
        Err(e) => Err(e),
    }
}

/// Why a configuration could not be found, made or read.
#[derive(Debug, Clone, PartialEq, Eq)]
pub enum ConfigError {
    /// The lookup of the home directory failed.
    HomeLookupFailed,
    /// There is no home directory to put the default directory in.
    NoHomeDirectory,
    /// A node of this name already exists.
    NodeExists(String),
    /// No node of this name exists.
    NodeDoesNotExist(String),
    /// The stored identity is not the encoding of a keypair.
    InvalidIdentity,
}

/// The directory that holds the nodes: the one given, else the default one under `home`.
pub open spec fn config_dir(base: Option<Seq<char>>, home: Option<Seq<char>>) -> Option<Seq<char>> {
    match base {
        Some(p) => Some(p),
        None => match home {
            Some(h) => Some(path_join(h, CONFIG_DIRECTORY_NAME@)),
            None => None,
        },
    }
}

/// The text of an optional string.
pub open spec fn opt_view(s: Option<String>) -> Option<Seq<char>> {
    match s {
        Some(t) => Some(t@),
        None => None,
    }
}

/// Manages the configurations of nodes, each in a directory of its own under `path`.
#[derive(Debug)]
pub struct ConfigManager {
    pub path: String,
}

/// The configuration of a node: its name and its identity, a keypair in its protobuf encoding.
#[derive(Debug)]
pub struct Config {
    pub name: String,
    pub identity: Vec<u8>,
}

/// The form in which a configuration is written to disk.
#[derive(Debug, Clone)]
pub struct ConfigSerializable {
    pub name: String,
    pub identity: Vec<u8>,
}

impl ConfigManager {
    /// The directory of the node `name`.
    pub open spec fn node_path_spec(&self, name: Seq<char>) -> Seq<char> {
        path_join(self.path@, name)
    }

    /// The configuration file of the node `name`.
    pub open spec fn node_config_path_spec(&self, name: Seq<char>) -> Seq<char> {
        path_join(self.node_path_spec(name), CONFIG_FILE_NAME@)
    }

    /// The node `name` exists when both its directory and its configuration file are among
    /// the paths that exist.
    pub open spec fn node_exists_spec(&self, name: Seq<char>, existing: Seq<String>) -> bool {
        listed(existing, self.node_path_spec(name)) && listed(
            existing,
            self.node_config_path_spec(name),
        )
    }

    /// A manager over `base`, or, where no directory is given, over the default directory
    /// under `home`.
    pub fn from_home(base: Option<String>, home: Option<String>) -> (r: Result<Self, ConfigError>)
        ensures
            match config_dir(opt_view(base), opt_view(home)) {
                Some(p) => r matches Ok(m) && m.path@ == p,
                None => r == Err::<Self, ConfigError>(ConfigError::NoHomeDirectory),
            },
    {
        match base {
            Some(p) => Ok(ConfigManager { path: p }),
            None => match home {
                Some(h) => Ok(ConfigManager { path: join(h.as_str(), CONFIG_DIRECTORY_NAME) }),
                None => Err(ConfigError::NoHomeDirectory),
            },
        }
    }

    /// A manager over `base_path`, or, where it is `None`, over the default directory under the
    /// home directory of the user.
    pub fn new(base_path: Option<String>) -> (r: Result<Self, ConfigError>)
        ensures
            base_path matches Some(p) ==> (r matches Ok(m) && m.path@ == p@),
            base_path is None ==> match r {
                Ok(m) => exists|h: Seq<char>| m.path@ == path_join(h, CONFIG_DIRECTORY_NAME@),
                Err(e) => e == ConfigError::HomeLookupFailed || e == ConfigError::NoHomeDirectory,
            },
    {
        match base_path {
            Some(p) => Self::from_home(Some(p), None),
            None => match my_home_dir() {
                Err(_) => Err(ConfigError::HomeLookupFailed),
                Ok(home) => Self::from_home(None, home),
            },
        }
    }

    /// The directory where the node `name` is kept, whether it exists or not.
    pub fn get_node_path(&self, name: &str) -> (r: String)
        ensures
            r@ == self.node_path_spec(name@),
    {
        join(self.path.as_str(), name)
    }

    /// The configuration file of the node `name`, whether it exists or not.
    pub fn get_node_config_path(&self, name: &str) -> (r: String)
        ensures
            r@ == self.node_config_path_spec(name@),
    {
        let dir = self.get_node_path(name);
        join(dir.as_str(), CONFIG_FILE_NAME)
    }

    /// Whether the node `name` exists, given the paths that exist.
    pub fn node_exists(&self, name: &str, existing: &Vec<String>) -> (r: bool)
        ensures
            r == self.node_exists_spec(name@, existing@),
    {
        let dir = self.get_node_path(name);
        let cfg = self.get_node_config_path(name);
        crate::paths::contains_path(existing, &dir) && crate::paths::contains_path(existing, &cfg)
    }

    /// Makes the configuration of a new node `name`, with a new identity, and says where it is
    /// to be written; refused when the node already exists.
    pub fn add_config(&self, name: &str, existing: &Vec<String>) -> (r: Result<
        (String, Config),
        ConfigError,
    >)
        ensures
            self.node_exists_spec(name@, existing@) ==> (r matches Err(ConfigError::NodeExists(n))
                && n@ == name@),
            !self.node_exists_spec(name@, existing@) ==> (r matches Ok((p, c)) && p@
                == self.node_config_path_spec(name@) && c.name@ == name@ && c.wf()),
    {
        if self.node_exists(name, existing) {
            return Err(ConfigError::NodeExists(name.to_owned()));
        }
        let path = self.get_node_config_path(name);
        Ok((path, Config::new(name)))
    }

    /// The configuration file from which the node `name` is read; refused when the node does
    /// not exist.
    pub fn locate_node_config(&self, name: &str, existing: &Vec<String>) -> (r: Result<
        String,
        ConfigError,
    >)
        ensures
            self.node_exists_spec(name@, existing@) ==> (r matches Ok(p) && p@
                == self.node_config_path_spec(name@)),
            !self.node_exists_spec(name@, existing@) ==> (r matches Err(
                ConfigError::NodeDoesNotExist(n),
            ) && n@ == name@),
    {
        if !self.node_exists(name, existing) {
            return Err(ConfigError::NodeDoesNotExist(name.to_owned()));
        }
        Ok(self.get_node_config_path(name))
    }

    /// The configuration file to which `config` is written.
    pub fn save_node_config_path(&self, config: &Config) -> (r: String)
        ensures
            r@ == self.node_config_path_spec(config.name@),
    {
        self.get_node_config_path(config.name.as_str())
    }
}

impl Config {
    /// The identity is the encoding of a keypair.
    pub open spec fn wf(&self) -> bool {
        keypair_decodes(self.identity@)
    }

    /// The configuration of a node `name` with a new, random identity.
    pub fn new(name: &str) -> (r: Config)
        ensures
            r.name@ == name@,
            r.wf(),
    {
        let identity = match generate_keypair() {
            Some(v) => v,
            None => {
                proof {
                    assert(false);
                }
                Vec::new()
            },
        };
        Config { name: name.to_owned(), identity }
    }

    /// The configuration that `value` holds; refused when its identity is not an encoded
    /// keypair.
    pub fn try_from_serializable(value: &ConfigSerializable) -> (r: Result<Config, ConfigError>)
        ensures
            keypair_decodes(value.identity@) ==> (r matches Ok(c) && c.name@ == value.name@
                && c.identity@ == value.identity@ && c.wf()),
            !keypair_decodes(value.identity@) ==> r == Err::<Config, ConfigError>(
                ConfigError::InvalidIdentity,
            ),
    {
        if !keypair_is_valid(value.identity.as_slice()) {
            return Err(ConfigError::InvalidIdentity);
        }
        Ok(Config { name: value.name.clone(), identity: value.identity.clone() })
    }

    /// The form in which this configuration is written.
    pub fn to_serializable(&self) -> (r: ConfigSerializable)
        ensures
            r.name@ == self.name@,
            r.identity@ == self.identity@,
    {
        ConfigSerializable { name: self.name.clone(), identity: self.identity.clone() }
    }
}

} // verus!
