//! The service facade: what a node does with a read or a write that
//! arrives at it. It decides once who owns the key, serves the request
//! from the local store where this node does, and hands it to the owner
//! otherwise; the caller performs the hand-over and gives back what the
//! owner answered.

use crate::decimal::{decimal_chars, decimal_string};
use crate::node_config::{Instance, NodeConfig};
use crate::router::check_redirect;
use crate::storage::{put, stored_value, Storage, StorageError};
use crate::text::text_from_utf8;
use vstd::prelude::*;
use vstd::string::StrSliceExecFns;
use vstd::string::StringExecFns;
use vstd::utf8::{decode_utf8, encode_utf8, valid_utf8};

verus! {

/// Why a request failed.
#[derive(Debug, Clone, Copy, PartialEq, Eq)]
pub enum ServiceError {
    /// The local store failed.
    Storage(StorageError),
    /// The owner could not be reached, answered with an error status, or
    /// answered with a body that is not text.
    RemoteForward,
    /// The body of a write is not text.
    Encoding,
}

/// The answer to a request.
#[derive(Debug, PartialEq, Eq)]
pub enum Reply {
    /// The value that was read.
    Value(Vec<u8>),
    /// The value was written.
    Stored,
    /// Nothing is stored under the key.
    NotFound,
    /// The request failed.
    Failed(ServiceError),
}

/// A request to hand to the owner of a key.
#[derive(Debug, PartialEq, Eq)]
pub struct Forward {
    /// Where to send it: the owner's address and the path of the operation.
    pub url: String,
    /// The value to write; `None` for a read.
    pub body: Option<String>,
}

/// What the facade decided to do with a request.
#[derive(Debug, PartialEq, Eq)]
pub enum Step {
    /// The request was served here.
    Respond(Reply),
    /// The key belongs to another node: send this, once, and relay the answer.
    Forward(Forward),
}

/// What came of handing a request to the owner.
#[derive(Debug, PartialEq, Eq)]
pub enum PeerOutcome {
    /// No answer arrived.
    Unreachable,
    /// The owner answered.
    Response { status: u16, body: Vec<u8> },
}

/// The status is one of the success statuses.
pub open spec fn is_success(status: u16) -> bool {
    200 <= status < 300
}

/// The location of the read of `key` on the node at `address`.
pub open spec fn read_url(address: Seq<char>, key: Seq<char>) -> Seq<char> {
    address + "/cache/"@ + key
}

/// The location of the write of `key` with the time-to-live `ttl` on the
/// node at `address`.
pub open spec fn write_url(address: Seq<char>, key: Seq<char>, ttl: u64) -> Seq<char> {
    address + "/cache/"@ + key + "/"@ + decimal_chars(ttl as nat)
}

/// The text that greets a client at the root path.
pub fn home() -> (banner: &'static str)
    ensures
        banner@ == "REO, Distributed KV Store written in Rust!"@,
{
    "REO, Distributed KV Store written in Rust!"
}

/// The location of the read of `key` on `node`.
pub fn forward_get_url(node: &Instance, key: &str) -> (url: String)
    ensures
        url@ == read_url(node.address@, key@),
{
    let mut url = node.address.clone();
    url.append("/cache/");
    url.append(key);
    url
}

/// The location of the write of `key` with the time-to-live `ttl` on `node`.
pub fn forward_put_url(node: &Instance, key: &str, ttl: u64) -> (url: String)
    ensures
        url@ == write_url(node.address@, key@, ttl),
{
    let mut url = forward_get_url(node, key);
    url.append("/");
    let seconds = decimal_string(ttl);
    url.append(seconds.as_str());
    url
}

/// The answer to a read that the local store served.
pub open spec fn read_reply(found: Result<Option<Vec<u8>>, StorageError>) -> Reply {
    match found {
        Ok(Some(value)) => Reply::Value(value),
        Ok(None) => Reply::NotFound,
        Err(e) => Reply::Failed(ServiceError::Storage(e)),
    }
}

/// The answer to a write that the local store served.
pub open spec fn write_reply(written: Result<(), StorageError>) -> Reply {
    match written {
        Ok(()) => Reply::Stored,
        Err(e) => Reply::Failed(ServiceError::Storage(e)),
    }
}

/// The answer to a read, from what the local store returned: the value, its
/// absence, or the store's failure.
pub fn reply_to_read(found: Result<Option<Vec<u8>>, StorageError>) -> (reply: Reply)
    ensures
        reply == read_reply(found),
{
    match found {
        Ok(Some(value)) => Reply::Value(value),
        Ok(None) => Reply::NotFound,
        Err(e) => Reply::Failed(ServiceError::Storage(e)),
    }
}

/// The answer to a write, from what the local store returned: success, or
/// the store's failure.
pub fn reply_to_write(written: Result<(), StorageError>) -> (reply: Reply)
    ensures
        reply == write_reply(written),
{
    match written {
        Ok(()) => Reply::Stored,
        Err(e) => Reply::Failed(ServiceError::Storage(e)),
    }
}

/// Answers a read of `key`.
///
/// Where another node owns the key, the store is not read: the step is the
/// request to hand to the owner. Where this node owns it, the step is the
/// answer from the local store.
pub fn get_key<S: Storage>(key: &String, config: &NodeConfig, storage: &S) -> (step: Step)
    requires
        config.nodes.len() > 0,
        storage.wf(),
    ensures
        !config.is_local(key@) ==> ({
            &&& step matches Step::Forward(forward)
            &&& forward.url@ == read_url(config.owner_of(key@).address@, key@)
            &&& forward.body is None
        }),
        config.is_local(key@) ==> ({
            &&& step matches Step::Respond(reply)
            &&& match reply {
                Reply::Value(bytes) => stored_value(storage.records(), key@) == Some(bytes@),
                Reply::NotFound => stored_value(storage.records(), key@) is None,
                Reply::Failed(e) => e matches ServiceError::Storage(cause) && cause
                    != StorageError::ExpiryOverflow && !storage.never_fails(),
                Reply::Stored => false,
            }
        }),
{
    match check_redirect(key, config) {
        Some(instance) => Step::Forward(
            Forward { url: forward_get_url(instance, key.as_str()), body: None },
        ),
        None => Step::Respond(reply_to_read(storage.get_record(key.as_str()))),
    }
}

/// Answers a write of `body` under `key` with the time-to-live `ttl`.
///
/// A body that is not text is refused before anything else. Where another
/// node owns the key, the store is left as it is: the step is the request
/// to hand to the owner. Where this node owns it, the value is written to
/// the local store.
pub fn set_key<S: Storage>(
    key: &String,
    ttl: u64,
    body: &[u8],
    config: &NodeConfig,
    storage: &mut S,
) -> (step: Step)
    requires
        config.nodes.len() > 0,
        old(storage).wf(),
    ensures
        final(storage).wf(),
        final(storage).never_fails() == old(storage).never_fails(),
        !valid_utf8(body@) ==> step == Step::Respond(Reply::Failed(ServiceError::Encoding)),
        !valid_utf8(body@) || !config.is_local(key@) ==> final(storage).records() == old(storage).records(),
        valid_utf8(body@) && !config.is_local(key@) ==> ({
            &&& step matches Step::Forward(forward)
            &&& forward.url@ == write_url(config.owner_of(key@).address@, key@, ttl)
            &&& forward.body matches Some(text)
            &&& text@ == decode_utf8(body@)
        }),
        valid_utf8(body@) && config.is_local(key@) ==> ({
            &&& step matches Step::Respond(reply)
            &&& match reply {
                Reply::Stored => exists|now: u64|
                    now + ttl <= u64::MAX && final(storage).records() == #[trigger] put(
                        old(storage).records(),
                        key@,
                        decode_utf8(body@),
                        (now + ttl) as u64,
                    ),
                Reply::Failed(e) => {
                    &&& e matches ServiceError::Storage(cause)
                    &&& cause == StorageError::ExpiryOverflow ==> ttl > 0 && final(storage).records() == old(storage).records()
                    &&& old(storage).never_fails() ==> cause == StorageError::ExpiryOverflow
                },
                _ => false,
            }
        }),
{
    let content = match text_from_utf8(body) {
        Some(content) => content,
        None => {
            return Step::Respond(Reply::Failed(ServiceError::Encoding));
        },
    };
    match check_redirect(key, config) {
        Some(instance) => Step::Forward(
            Forward { url: forward_put_url(instance, key.as_str(), ttl), body: Some(content) },
        ),
        None => Step::Respond(reply_to_write(storage.add_record(key.as_str(), content.as_str(), ttl))),
    }
}

/// The answer to a read that was handed to the owner: the owner's value as
/// it came where it reports success with a body that is text, absence
/// where it reports that nothing is stored, and a failure otherwise.
pub fn relay_get(outcome: PeerOutcome) -> (reply: Reply)
    ensures
        reply == match outcome {
            PeerOutcome::Unreachable => Reply::Failed(ServiceError::RemoteForward),
            PeerOutcome::Response { status, body } => if is_success(status) && valid_utf8(body@) {
                Reply::Value(body)
            } else if status == 404 {
                Reply::NotFound
            } else {
                Reply::Failed(ServiceError::RemoteForward)
            },
        },
{
    match outcome {
        PeerOutcome::Unreachable => Reply::Failed(ServiceError::RemoteForward),
        PeerOutcome::Response { status, body } => {
            if 200 <= status && status < 300 {
                match text_from_utf8(body.as_slice()) {
                    Some(_) => Reply::Value(body),
                    None => Reply::Failed(ServiceError::RemoteForward),
                }
            } else if status == 404 {
                Reply::NotFound
            } else {
                Reply::Failed(ServiceError::RemoteForward)
            }
        },
    }
}

/// The answer to a write that was handed to the owner: success where the
/// owner reports it, a failure otherwise.
pub fn relay_set(outcome: PeerOutcome) -> (reply: Reply)
    ensures
        reply == match outcome {
            PeerOutcome::Unreachable => Reply::Failed(ServiceError::RemoteForward),
            PeerOutcome::Response { status, body } => if is_success(status) {
                Reply::Stored
            } else {
                Reply::Failed(ServiceError::RemoteForward)
            },
        },
{
    match outcome {
        PeerOutcome::Unreachable => Reply::Failed(ServiceError::RemoteForward),
        PeerOutcome::Response { status, body } => {
            if 200 <= status && status < 300 {
                Reply::Stored
            } else {
                Reply::Failed(ServiceError::RemoteForward)
            }
        },
    }
}

impl ServiceError {
    /// What to tell the client, as a mathematical value.
    pub open spec fn message_text(&self) -> Seq<char> {
        match *self {
            ServiceError::Storage(StorageError::Backend) => "storage backend failure"@,
            ServiceError::Storage(StorageError::Corrupt(_)) => "stored record is corrupt"@,
            ServiceError::Storage(StorageError::ExpiryOverflow) => "expiry time out of range"@,
            ServiceError::RemoteForward => "forwarding to the owning node failed"@,
            ServiceError::Encoding => "request body is not valid text"@,
        }
    }

    /// What to tell the client.
    pub fn message(&self) -> (text: &'static str)
        ensures
            text@ == self.message_text(),
    {
        match self {
            ServiceError::Storage(StorageError::Backend) => "storage backend failure",
            ServiceError::Storage(StorageError::Corrupt(_)) => "stored record is corrupt",
            ServiceError::Storage(StorageError::ExpiryOverflow) => "expiry time out of range",
            ServiceError::RemoteForward => "forwarding to the owning node failed",
            ServiceError::Encoding => "request body is not valid text",
        }
    }
}

impl Reply {
    /// The status that the answer carries: success, not found, or server
    /// error.
    pub fn status(&self) -> (status: u16)
        ensures
            status == match *self {
                Reply::Value(_) => 200u16,
                Reply::Stored => 200u16,
                Reply::NotFound => 404u16,
                Reply::Failed(_) => 500u16,
            },
    {
        match self {
            Reply::Value(_) => 200,
            Reply::Stored => 200,
            Reply::NotFound => 404,
            Reply::Failed(_) => 500,
        }
    }

    /// The body that the answer carries: the value as it is stored, or a
    /// short text.
    pub fn into_body(self) -> (body: Vec<u8>)
        ensures
            body@ == match self {
                Reply::Value(bytes) => bytes@,
                Reply::Stored => encode_utf8("OK"@),
                Reply::NotFound => encode_utf8("Not found!"@),
                Reply::Failed(e) => encode_utf8(e.message_text()),
            },
    {
        match self {
            Reply::Value(bytes) => bytes,
            Reply::Stored => "OK".as_bytes_vec(),
            Reply::NotFound => "Not found!".as_bytes_vec(),
            Reply::Failed(e) => e.message().as_bytes_vec(),
        }
    }
}

} // verus!
