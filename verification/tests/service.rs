use reo::{
    forward_get_url, forward_put_url, get_key, home, relay_get, relay_set, reply_to_read,
    reply_to_write, set_key, Forward, HashMapStorage, Instance, NodeConfig, PeerOutcome,
    RecordError, Reply, ServiceError, SledStorage, Step, Storage, StorageError,
};
use std::time::{SystemTime, UNIX_EPOCH};

fn node(id: usize) -> Instance {
    Instance { id, address: format!("http://127.0.0.1:{}", 3000 + id), name: format!("node-{}", id) }
}

fn cluster(current: usize) -> NodeConfig {
    NodeConfig { nodes: vec![node(0), node(1), node(2)], current_node: node(current) }
}

#[test]
fn banner_is_fixed() {
    assert_eq!(home(), "REO, Distributed KV Store written in Rust!");
}

#[test]
fn read_location_is_address_and_key() {
    assert_eq!(forward_get_url(&node(0), "abc"), "http://127.0.0.1:3000/cache/abc");
    assert_eq!(forward_get_url(&node(2), ""), "http://127.0.0.1:3002/cache/");
}

#[test]
fn write_location_is_address_key_and_ttl() {
    assert_eq!(forward_put_url(&node(0), "abc", 30), "http://127.0.0.1:3000/cache/abc/30");
    assert_eq!(forward_put_url(&node(1), "k", 0), "http://127.0.0.1:3001/cache/k/0");
    assert_eq!(
        forward_put_url(&node(1), "k", u64::MAX),
        "http://127.0.0.1:3001/cache/k/18446744073709551615"
    );
}

#[test]
fn owner_reads_from_its_own_store() {
    let mut storage = HashMapStorage::new();
    storage.add_record_at("abc", "hello", 10, 1000).unwrap();
    let step = get_key(&"abc".to_string(), &cluster(0), &storage);
    assert_eq!(step, Step::Respond(Reply::Value(b"hello".to_vec())));
}

#[test]
fn owner_reports_an_absent_key() {
    let storage = HashMapStorage::new();
    let step = get_key(&"abc".to_string(), &cluster(0), &storage);
    assert_eq!(step, Step::Respond(Reply::NotFound));
}

#[test]
fn other_node_forwards_a_read_without_reading_its_store() {
    let mut storage = HashMapStorage::new();
    storage.add_record_at("abc", "local copy", 10, 1000).unwrap();
    for current in [1usize, 2] {
        let step = get_key(&"abc".to_string(), &cluster(current), &storage);
        assert_eq!(
            step,
            Step::Forward(Forward { url: "http://127.0.0.1:3000/cache/abc".to_string(), body: None })
        );
    }
}

#[test]
fn owner_writes_to_its_own_store() {
    let mut storage = HashMapStorage::new();
    let step = set_key(&"abc".to_string(), 3600, b"hello", &cluster(0), &mut storage);
    assert_eq!(step, Step::Respond(Reply::Stored));
    assert_eq!(storage.get_record("abc"), Ok(Some(b"hello".to_vec())));
}

#[test]
fn other_node_forwards_a_write_and_leaves_its_store() {
    let mut storage = HashMapStorage::new();
    let step = set_key(&"abc".to_string(), 30, b"hello", &cluster(1), &mut storage);
    assert_eq!(
        step,
        Step::Forward(Forward {
            url: "http://127.0.0.1:3000/cache/abc/30".to_string(),
            body: Some("hello".to_string()),
        })
    );
    assert_eq!(storage.get_record("abc"), Ok(None));
}

#[test]
fn write_of_a_body_that_is_not_text_is_refused() {
    let mut storage = HashMapStorage::new();
    for current in [0usize, 1] {
        let step = set_key(&"abc".to_string(), 30, &[0xff, 0x00], &cluster(current), &mut storage);
        assert_eq!(step, Step::Respond(Reply::Failed(ServiceError::Encoding)));
    }
    assert_eq!(storage.get_record("abc"), Ok(None));
}

#[test]
fn write_with_an_expiry_out_of_range_fails() {
    let mut storage = HashMapStorage::new();
    let step = set_key(&"abc".to_string(), u64::MAX, b"hello", &cluster(0), &mut storage);
    assert_eq!(
        step,
        Step::Respond(Reply::Failed(ServiceError::Storage(StorageError::ExpiryOverflow)))
    );
    assert_eq!(storage.get_record("abc"), Ok(None));
}

#[test]
fn read_relays_the_owner_value_unchanged() {
    let body = "a:b:c – é".as_bytes().to_vec();
    let reply = relay_get(PeerOutcome::Response { status: 200, body: body.clone() });
    assert_eq!(reply, Reply::Value(body));
    assert_eq!(relay_get(PeerOutcome::Response { status: 200, body: Vec::new() }), Reply::Value(Vec::new()));
}

#[test]
fn read_relays_absence() {
    let reply = relay_get(PeerOutcome::Response { status: 404, body: b"Not found!".to_vec() });
    assert_eq!(reply, Reply::NotFound);
}

#[test]
fn read_reports_a_failed_forward() {
    let failed = Reply::Failed(ServiceError::RemoteForward);
    assert_eq!(relay_get(PeerOutcome::Unreachable), failed);
    assert_eq!(relay_get(PeerOutcome::Response { status: 500, body: b"boom".to_vec() }), failed);
    assert_eq!(relay_get(PeerOutcome::Response { status: 302, body: Vec::new() }), failed);
    assert_eq!(relay_get(PeerOutcome::Response { status: 199, body: b"x".to_vec() }), failed);
    assert_eq!(relay_get(PeerOutcome::Response { status: 300, body: b"x".to_vec() }), failed);
    assert_eq!(relay_get(PeerOutcome::Response { status: 200, body: vec![0xff] }), failed);
}

#[test]
fn write_relays_the_owner_outcome() {
    assert_eq!(relay_set(PeerOutcome::Response { status: 200, body: b"OK".to_vec() }), Reply::Stored);
    assert_eq!(relay_set(PeerOutcome::Response { status: 204, body: Vec::new() }), Reply::Stored);
    let failed = Reply::Failed(ServiceError::RemoteForward);
    assert_eq!(relay_set(PeerOutcome::Unreachable), failed);
    assert_eq!(relay_set(PeerOutcome::Response { status: 404, body: Vec::new() }), failed);
    assert_eq!(relay_set(PeerOutcome::Response { status: 500, body: b"boom".to_vec() }), failed);
}

#[test]
fn replies_carry_status_and_body() {
    assert_eq!(Reply::Value(b"v".to_vec()).status(), 200);
    assert_eq!(Reply::Value(b"v".to_vec()).into_body(), b"v".to_vec());
    assert_eq!(Reply::Stored.status(), 200);
    assert_eq!(Reply::Stored.into_body(), b"OK".to_vec());
    assert_eq!(Reply::NotFound.status(), 404);
    assert_eq!(Reply::NotFound.into_body(), b"Not found!".to_vec());
    let failed = Reply::Failed(ServiceError::RemoteForward);
    assert_eq!(failed.status(), 500);
    assert_eq!(failed.into_body(), b"forwarding to the owning node failed".to_vec());
}

#[test]
fn every_failure_has_a_message() {
    assert_eq!(ServiceError::Encoding.message(), "request body is not valid text");
    assert_eq!(ServiceError::RemoteForward.message(), "forwarding to the owning node failed");
    assert_eq!(ServiceError::Storage(StorageError::Backend).message(), "storage backend failure");
    assert_eq!(
        ServiceError::Storage(StorageError::ExpiryOverflow).message(),
        "expiry time out of range"
    );
    assert_eq!(
        ServiceError::Storage(StorageError::Corrupt(reo::RecordError::NotText)).message(),
        "stored record is corrupt"
    );
}

#[test]
fn forwarded_read_round_trip_between_two_nodes() {
    // Node 0 owns "abc"; node 1 receives the read.
    let mut owner_store = HashMapStorage::new();
    let asked_store = HashMapStorage::new();
    owner_store.add_record_at("abc", "hello", 10, 1000).unwrap();
    let key = "abc".to_string();
    let forward = match get_key(&key, &cluster(1), &asked_store) {
        Step::Forward(forward) => forward,
        Step::Respond(reply) => panic!("served locally: {:?}", reply),
    };
    assert_eq!(forward.url, "http://127.0.0.1:3000/cache/abc");
    let answer = match get_key(&key, &cluster(0), &owner_store) {
        Step::Respond(reply) => reply,
        Step::Forward(again) => panic!("forwarded again: {:?}", again),
    };
    let status = answer.status();
    let relayed = relay_get(PeerOutcome::Response { status, body: answer.into_body() });
    assert_eq!(relayed, Reply::Value(b"hello".to_vec()));
}

#[test]
fn local_read_answer_follows_the_store() {
    assert_eq!(reply_to_read(Ok(Some(b"v".to_vec()))), Reply::Value(b"v".to_vec()));
    assert_eq!(reply_to_read(Ok(Some(Vec::new()))), Reply::Value(Vec::new()));
    assert_eq!(reply_to_read(Ok(None)), Reply::NotFound);
    assert_eq!(
        reply_to_read(Err(StorageError::Backend)),
        Reply::Failed(ServiceError::Storage(StorageError::Backend))
    );
    assert_eq!(
        reply_to_read(Err(StorageError::Corrupt(RecordError::BadTimestamp))),
        Reply::Failed(ServiceError::Storage(StorageError::Corrupt(RecordError::BadTimestamp)))
    );
}

#[test]
fn local_write_answer_follows_the_store() {
    assert_eq!(reply_to_write(Ok(())), Reply::Stored);
    assert_eq!(
        reply_to_write(Err(StorageError::Backend)),
        Reply::Failed(ServiceError::Storage(StorageError::Backend))
    );
    assert_eq!(
        reply_to_write(Err(StorageError::ExpiryOverflow)),
        Reply::Failed(ServiceError::Storage(StorageError::ExpiryOverflow))
    );
}

#[test]
fn facade_serves_from_the_persistent_store() {
    let stamp = SystemTime::now().duration_since(UNIX_EPOCH).expect("a clock").as_nanos();
    let path = format!("/tmp/reo-test-facade-{}", stamp);
    let mut storage = SledStorage::new(&path).expect("a database under /tmp");
    let key = "abc".to_string();
    assert_eq!(get_key(&key, &cluster(0), &storage), Step::Respond(Reply::NotFound));
    assert_eq!(
        set_key(&key, 3600, b"a:b:c", &cluster(0), &mut storage),
        Step::Respond(Reply::Stored)
    );
    assert_eq!(
        get_key(&key, &cluster(0), &storage),
        Step::Respond(Reply::Value(b"a:b:c".to_vec()))
    );
    let forwarded = set_key(&"a".to_string(), 5, b"elsewhere", &cluster(0), &mut storage);
    assert_eq!(
        forwarded,
        Step::Forward(Forward {
            url: "http://127.0.0.1:3001/cache/a/5".to_string(),
            body: Some("elsewhere".to_string()),
        })
    );
    assert_eq!(storage.get_record("a"), Ok(None));
}
