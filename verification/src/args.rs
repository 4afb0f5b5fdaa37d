//! What a node is started with.

use crate::decimal::{decimal_chars, decimal_string};
use crate::node_config::ConfigError;
use vstd::prelude::*;
use vstd::string::StringExecFns;

verus! {

/// The start-up parameters of a node.
#[derive(Debug)]
pub struct Args {
    /// The port to listen on.
    pub port: usize,
    /// The storage kind: `"sled"` or `"memory"`.
    pub storage: String,
    /// The database name, which the storage kind `"sled"` needs.
    pub db_name: Option<String>,
    /// The identifier of this node among the declared nodes.
    pub id: usize,
}

/// The storage backend that a node runs on.
#[derive(Debug, PartialEq, Eq)]
pub enum StorageChoice {
    /// The volatile backend.
    Memory,
    /// The persistent backend, in the database of this name.
    Sled(String),
}

impl Args {
    /// The backend that the parameters ask for, as a mathematical value.
    pub open spec fn chosen_storage(&self) -> Result<Option<Seq<char>>, ConfigError> {
        if self.storage@ == "sled"@ {
            match self.db_name {
                Some(name) => Ok(Some(name@)),
                None => Err(ConfigError::MissingDbName),
            }
        } else if self.storage@ == "memory"@ {
            Ok(None)
        } else {
            Err(ConfigError::UnknownStorage)
        }
    }

    /// The backend that the parameters ask for. The persistent one needs a
    /// database name; the volatile one ignores it.
    pub fn storage_choice(&self) -> (choice: Result<StorageChoice, ConfigError>)
        ensures
            match choice {
                Ok(StorageChoice::Memory) => self.chosen_storage() == Ok::<_, ConfigError>(
                    None::<Seq<char>>,
                ),
                Ok(StorageChoice::Sled(name)) => self.chosen_storage() == Ok::<_, ConfigError>(
                    Some(name@),
                ),
                Err(e) => self.chosen_storage() == Err::<Option<Seq<char>>, _>(e),
            },
    {
        if self.storage == String::from_str("sled") {
            match &self.db_name {
                Some(name) => Ok(StorageChoice::Sled(name.clone())),
                None => Err(ConfigError::MissingDbName),
            }
        } else if self.storage == String::from_str("memory") {
            Ok(StorageChoice::Memory)
        } else {
            Err(ConfigError::UnknownStorage)
        }
    }

    /// The local address to listen on: the loopback host and the port.
    pub fn bind_address(&self) -> (address: String)
        ensures
            address@ == "127.0.0.1:"@ + decimal_chars(self.port as nat),
    {
        let mut address = String::from_str("127.0.0.1:");
        let port = decimal_string(self.port as u64);
        address.append(port.as_str());
        address
    }
}

} // verus!
