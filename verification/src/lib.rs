//! A single-tier distributed key-value cache: a fixed set of nodes share a
//! key space that is partitioned deterministically, values carry a
//! time-to-live, and a node that does not own a key forwards the request to
//! the node that does.

pub mod args;
pub mod clock;
pub mod decimal;
pub mod node_config;
pub mod record;
pub mod router;
pub mod service;
pub mod sled_storage;
pub mod storage;
pub mod text;

pub use args::{Args, StorageChoice};
pub use node_config::{ConfigError, Instance, InstanceView, NodeConfig};
pub use record::{format_db_value, parse_db_value, RecordError};
pub use router::{check_redirect, owner};
pub use service::{
    forward_get_url, forward_put_url, get_key, home, relay_get, relay_set, reply_to_read,
    reply_to_write, set_key, Forward, PeerOutcome, Reply, ServiceError, Step,
};
pub use sled_storage::SledStorage;
pub use storage::{
    HashMapContent, HashMapStorage, Storage, StorageError, SWEEP_INTERVAL_SECONDS,
};
