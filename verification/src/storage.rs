//! The storage engine: records with a time-to-live, kept by key. This
//! module holds the model that every backend answers to, and the volatile
//! backend.

use crate::clock::unix_now;
use crate::record::RecordError;
use vstd::hash_map::StringHashMap;
use vstd::prelude::*;
use vstd::string::StrSliceExecFns;
use vstd::string::StringExecFns;
use vstd::utf8::encode_utf8;

verus! {

/// The seconds between two sweeps of a running node.
pub const SWEEP_INTERVAL_SECONDS: u64 = 60;

/// A stored value and the time at which it expires, as mathematical values.
pub struct Record {
    pub expires_at: u64,
    pub value: Seq<char>,
}

/// Why a storage operation did not take place.
#[derive(Debug, Clone, Copy, PartialEq, Eq)]
pub enum StorageError {
    /// The engine underneath failed.
    Backend,
    /// What the engine holds under the key is not a record.
    Corrupt(RecordError),
    /// The expiry time, the current time plus the time-to-live, does not
    /// fit in 64 bits.
    ExpiryOverflow,
}

/// The records after `value` is written under `key`, to expire at
/// `expires_at`: whatever stood under `key` is replaced.
pub open spec fn put(
    records: Map<Seq<char>, Record>,
    key: Seq<char>,
    value: Seq<char>,
    expires_at: u64,
) -> Map<Seq<char>, Record> {
    records.insert(key, Record { expires_at, value })
}

/// The record's expiry time lies strictly before `now`.
pub open spec fn is_expired(record: Record, now: u64) -> bool {
    record.expires_at < now
}

/// The records that a sweep at time `now` leaves: those that have not
/// expired, unchanged.
pub open spec fn swept(records: Map<Seq<char>, Record>, now: u64) -> Map<Seq<char>, Record> {
    Map::new(
        |k: Seq<char>| records.contains_key(k) && !is_expired(records[k], now),
        |k: Seq<char>| records[k],
    )
}

/// What a read of `key` returns: the bytes of the value stored under it,
/// whether or not it has expired.
pub open spec fn stored_value(records: Map<Seq<char>, Record>, key: Seq<char>) -> Option<Seq<u8>> {
    if records.contains_key(key) {
        Some(encode_utf8(records[key].value))
    } else {
        None
    }
}

/// The time at which a record written at `now` with the time-to-live `ttl`
/// expires, where that time fits in 64 bits.
pub fn expiry_time(now: u64, ttl: u64) -> (expires_at: Option<u64>)
    ensures
        match expires_at {
            Some(t) => t == now + ttl,
            None => now + ttl > u64::MAX,
        },
{
    now.checked_add(ttl)
}

/// A record is readable as soon as it is written, stays readable through
/// every sweep up to its expiry time, and is gone after a sweep that runs
/// later than that.
pub proof fn written_record_is_visible_until_swept(
    records: Map<Seq<char>, Record>,
    key: Seq<char>,
    value: Seq<char>,
    ttl: u64,
    write_time: u64,
    sweep_time: u64,
)
    requires
        write_time + ttl <= u64::MAX,
    ensures
        ({
            let written = put(records, key, value, (write_time + ttl) as u64);
            &&& stored_value(written, key) == Some(encode_utf8(value))
            &&& sweep_time <= write_time + ttl ==> stored_value(swept(written, sweep_time), key)
                == Some(encode_utf8(value))
            &&& sweep_time > write_time + ttl ==> stored_value(swept(written, sweep_time), key)
                is None
        }),
{
}

/// A sweep removes every record that has expired and no other, and leaves
/// what it keeps as it was.
pub proof fn sweep_is_precise(records: Map<Seq<char>, Record>, now: u64)
    ensures
        forall|k: Seq<char>|
            records.contains_key(k) && records[k].expires_at < now ==> !(#[trigger] swept(
                records,
                now,
            ).contains_key(k)),
        forall|k: Seq<char>|
            records.contains_key(k) && records[k].expires_at >= now ==> (#[trigger] swept(
                records,
                now,
            ).contains_key(k)) && swept(records, now)[k] == records[k],
        swept(records, now).dom().subset_of(records.dom()),
{
}

/// A second write under a key replaces the value and the expiry time of
/// the first: the store is as if the first had never been made.
pub proof fn second_write_replaces_first(
    records: Map<Seq<char>, Record>,
    key: Seq<char>,
    first: Seq<char>,
    first_expiry: u64,
    second: Seq<char>,
    second_expiry: u64,
)
    ensures
        put(put(records, key, first, first_expiry), key, second, second_expiry) == put(
            records,
            key,
            second,
            second_expiry,
        ),
        stored_value(
            put(put(records, key, first, first_expiry), key, second, second_expiry),
            key,
        ) == Some(encode_utf8(second)),
        put(put(records, key, first, first_expiry), key, second, second_expiry)[key].expires_at
            == second_expiry,
{
    assert(put(put(records, key, first, first_expiry), key, second, second_expiry) =~= put(
        records,
        key,
        second,
        second_expiry,
    ));
}

/// A key-value store whose records carry a time-to-live.
///
/// Reads do not look at the expiry time: a record is returned until a sweep
/// removes it.
pub trait Storage {
    /// The records the store holds.
    spec fn records(&self) -> Map<Seq<char>, Record>;

    /// The store's internal invariant.
    spec fn wf(&self) -> bool;

    /// Nothing underneath the store can fail: its operations report no
    /// error but an expiry time out of range.
    spec fn never_fails(&self) -> bool;

    /// Writes `value` under `key` at time `now`, to expire `ttl` seconds later.
    fn add_record_at(&mut self, key: &str, value: &str, ttl: u64, now: u64) -> (r: Result<
        (),
        StorageError,
    >)
        requires
            old(self).wf(),
            now + ttl <= u64::MAX,
        ensures
            final(self).wf(),
            final(self).never_fails() == old(self).never_fails(),
            old(self).never_fails() ==> r is Ok,
            r is Ok ==> final(self).records() == put(
                old(self).records(),
                key@,
                value@,
                (now + ttl) as u64,
            ),
            r == Err::<(), _>(StorageError::ExpiryOverflow) ==> final(self).records() == old(self).records(),
    ;

    /// Writes `value` under `key`, to expire `ttl` seconds from now. Where
    /// the expiry time does not fit in 64 bits nothing is written.
    fn add_record(&mut self, key: &str, value: &str, ttl: u64) -> (r: Result<(), StorageError>)
        requires
            old(self).wf(),
        ensures
            final(self).wf(),
            final(self).never_fails() == old(self).never_fails(),
            old(self).never_fails() && r is Err ==> r == Err::<(), _>(StorageError::ExpiryOverflow),
            r is Ok ==> exists|now: u64|
                now + ttl <= u64::MAX && final(self).records() == #[trigger] put(
                    old(self).records(),
                    key@,
                    value@,
                    (now + ttl) as u64,
                ),
            r == Err::<(), _>(StorageError::ExpiryOverflow) ==> ttl > 0 && final(self).records()
                == old(self).records(),
    ;

    /// The bytes of the value stored under `key`, expired or not.
    fn get_record(&self, key: &str) -> (r: Result<Option<Vec<u8>>, StorageError>)
        requires
            self.wf(),
        ensures
            match r {
                Ok(Some(bytes)) => stored_value(self.records(), key@) == Some(bytes@),
                Ok(None) => stored_value(self.records(), key@) is None,
                Err(e) => e != StorageError::ExpiryOverflow && !self.never_fails(),
            },
    ;

    /// Removes every record that has expired at time `now`, and no other.
    fn invalidate_old_records_at(&mut self, now: u64) -> (r: Result<(), StorageError>)
        requires
            old(self).wf(),
        ensures
            final(self).wf(),
            final(self).never_fails() == old(self).never_fails(),
            old(self).never_fails() ==> r is Ok,
            r is Ok ==> final(self).records() == swept(old(self).records(), now),
    ;

    /// Removes every record that has expired by now, and no other. The
    /// clock is read once, before the scan.
    fn invalidate_old_records(&mut self) -> (r: Result<(), StorageError>)
        requires
            old(self).wf(),
        ensures
            final(self).wf(),
            final(self).never_fails() == old(self).never_fails(),
            old(self).never_fails() ==> r is Ok,
            r is Ok ==> exists|now: u64|
                final(self).records() == #[trigger] swept(old(self).records(), now),
    ;
}

/// What the volatile backend keeps for a key.
pub struct HashMapContent {
    invalidate_at: u64,
    value: String,
}

impl View for HashMapContent {
    type V = Record;

    closed spec fn view(&self) -> Record {
        Record { expires_at: self.invalidate_at, value: self.value@ }
    }
}

/// The volatile backend: records in a hash map, lost when the process ends.
pub struct HashMapStorage {
    map: StringHashMap<HashMapContent>,
    /// The keys of `map`, which a sweep walks.
    keys: Vec<String>,
}

impl HashMapStorage {
    /// A store that holds nothing.
    pub fn new() -> (storage: Self)
        ensures
            storage.wf(),
            storage.records() == Map::<Seq<char>, Record>::empty(),
    {
        let storage = HashMapStorage { map: StringHashMap::new(), keys: Vec::new() };
        assert(storage.records() =~= Map::<Seq<char>, Record>::empty());
        storage
    }

    /// Every key of the map is listed.
    spec fn keys_cover_map(&self) -> bool {
        forall|k: Seq<char>| #[trigger]
            self.map@.contains_key(k) ==> exists|i: int|
                0 <= i < self.keys.len() && (#[trigger] self.keys[i])@ == k
    }

    /// Every listed key is a key of the map.
    spec fn keys_in_map(&self) -> bool {
        forall|i: int| 0 <= i < self.keys.len() ==> self.map@.contains_key((#[trigger] self.keys[i])@)
    }

    /// No key is listed twice.
    spec fn keys_distinct(&self) -> bool {
        forall|i: int, j: int|
            0 <= i < j < self.keys.len() ==> (#[trigger] self.keys[i])@ != (#[trigger] self.keys[j])@
    }
}

impl Storage for HashMapStorage {
    closed spec fn records(&self) -> Map<Seq<char>, Record> {
        Map::new(|k: Seq<char>| self.map@.contains_key(k), |k: Seq<char>| self.map@[k]@)
    }

    closed spec fn wf(&self) -> bool {
        self.keys_cover_map() && self.keys_in_map() && self.keys_distinct()
    }

    open spec fn never_fails(&self) -> bool {
        true
    }

    fn add_record_at(&mut self, key: &str, value: &str, ttl: u64, now: u64) -> (r: Result<
        (),
        StorageError,
    >) {
        if !self.map.contains_key(key) {
            self.keys.push(String::from_str(key));
        }
        let content = HashMapContent { invalidate_at: now + ttl, value: String::from_str(value) };
        self.map.insert(String::from_str(key), content);
        proof {
            assert(self.records() =~= put(old(self).records(), key@, value@, (now + ttl) as u64));
            assert forall|k: Seq<char>| #[trigger] self.map@.contains_key(k) implies exists|i: int|
                0 <= i < self.keys.len() && (#[trigger] self.keys[i])@ == k by {
                if k == key@ {
                    if old(self).map@.contains_key(key@) {
                        let i = choose|i: int|
                            0 <= i < old(self).keys.len() && (#[trigger] old(self).keys[i])@ == k;
                        assert(self.keys[i]@ == k);
                    } else {
                        assert(self.keys[self.keys.len() - 1]@ == k);
                    }
                } else {
                    assert(old(self).map@.contains_key(k));
                    let i = choose|i: int|
                        0 <= i < old(self).keys.len() && (#[trigger] old(self).keys[i])@ == k;
                    assert(self.keys[i]@ == k);
                }
            }
        }
        Ok(())
    }

    fn add_record(&mut self, key: &str, value: &str, ttl: u64) -> (r: Result<(), StorageError>) {
        let now = unix_now();
        match expiry_time(now, ttl) {
            Some(_) => self.add_record_at(key, value, ttl, now),
            None => Err(StorageError::ExpiryOverflow),
        }
    }

    fn get_record(&self, key: &str) -> (r: Result<Option<Vec<u8>>, StorageError>) {
        match self.map.get(key) {
            Some(content) => Ok(Some(content.value.as_str().as_bytes_vec())),
            None => Ok(None),
        }
    }

    fn invalidate_old_records_at(&mut self, now: u64) -> (r: Result<(), StorageError>) {
        let ghost before = self.map@;
        let mut kept: Vec<String> = Vec::new();
        let mut i: usize = 0;
        while i < self.keys.len()
            invariant
                0 <= i <= self.keys.len(),
                self.keys == old(self).keys,
                before == old(self).map@,
                old(self).wf(),
                forall|k: Seq<char>| #[trigger]
                    self.map@.contains_key(k) ==> before.contains_key(k) && self.map@[k]
                        == before[k],
                forall|k: Seq<char>|
                    before.contains_key(k) && before[k].invalidate_at >= now
                        ==> #[trigger] self.map@.contains_key(k),
                forall|j: int|
                    0 <= j < i && before[(#[trigger] self.keys[j])@].invalidate_at < now
                        ==> !self.map@.contains_key(self.keys[j]@),
                forall|a: int|
                    0 <= a < kept.len() ==> self.map@.contains_key((#[trigger] kept[a])@)
                        && before[kept[a]@].invalidate_at >= now,
                forall|a: int|
                    0 <= a < kept.len() ==> exists|j: int|
                        0 <= j < i && (#[trigger] self.keys[j])@ == (#[trigger] kept[a])@,
                forall|a: int, b: int|
                    0 <= a < b < kept.len() ==> (#[trigger] kept[a])@ != (#[trigger] kept[b])@,
                forall|j: int|
                    0 <= j < i && before[(#[trigger] self.keys[j])@].invalidate_at >= now
                        ==> exists|a: int| 0 <= a < kept.len() && (#[trigger] kept[a])@ == self.keys[j]@,
            decreases self.keys.len() - i,
        {
            let key = self.keys[i].clone();
            let ghost kept_before = kept@;
            let expired = match self.map.get(key.as_str()) {
                Some(content) => Some(content.invalidate_at < now),
                None => None,
            };
            match expired {
                Some(true) => {
                    self.map.remove(key.as_str());
                },
                Some(false) => {
                    kept.push(key);
                    assert forall|a: int| 0 <= a < kept.len() implies exists|j: int|
                        0 <= j < i + 1 && (#[trigger] self.keys[j])@ == (#[trigger] kept[a])@ by {
                        if a < kept_before.len() {
                            let j = choose|j: int|
                                0 <= j < i && (#[trigger] self.keys[j])@ == kept_before[a]@;
                            assert(self.keys[j]@ == kept[a]@);
                        } else {
                            assert(self.keys[i as int]@ == kept[a]@);
                        }
                    }
                    assert forall|a: int, b: int| 0 <= a < b < kept.len() implies (
                    #[trigger] kept[a])@ != (#[trigger] kept[b])@ by {
                        if b == kept.len() - 1 {
                            let j = choose|j: int|
                                0 <= j < i && (#[trigger] self.keys[j])@ == kept_before[a]@;
                            assert(self.keys[j]@ != self.keys[i as int]@);
                        } else {
                            assert(kept_before[a]@ != kept_before[b]@);
                        }
                    }
                    assert forall|j: int|
                        0 <= j < i + 1 && before[(#[trigger] self.keys[j])@].invalidate_at
                            >= now implies exists|a: int|
                        0 <= a < kept.len() && (#[trigger] kept[a])@ == self.keys[j]@ by {
                        if j < i {
                            let a = choose|a: int|
                                0 <= a < kept_before.len() && (#[trigger] kept_before[a])@
                                    == self.keys[j]@;
                            assert(kept[a]@ == self.keys[j]@);
                        } else {
                            assert(kept[kept.len() - 1]@ == self.keys[j]@);
                        }
                    }
                },
                None => {},
            }
            i += 1;
        }
        let ghost listed = self.keys@;
        let ghost kept_keys = kept@;
        self.keys = kept;
        proof {
            assert forall|k: Seq<char>| #[trigger] self.map@.contains_key(k) implies before[k].invalidate_at
                >= now && exists|a: int|
                0 <= a < self.keys.len() && (#[trigger] self.keys[a])@ == k by {
                assert(before.contains_key(k));
                let j = choose|j: int| 0 <= j < listed.len() && (#[trigger] listed[j])@ == k;
                assert(listed[j]@ == k);
                if before[k].invalidate_at < now {
                    assert(!self.map@.contains_key(listed[j]@));
                }
                let a = choose|a: int|
                    0 <= a < kept_keys.len() && (#[trigger] kept_keys[a])@ == listed[j]@;
                assert(self.keys[a]@ == k);
            }
            assert(self.records() =~= swept(old(self).records(), now));
        }
        Ok(())
    }

    fn invalidate_old_records(&mut self) -> (r: Result<(), StorageError>) {
        let now = unix_now();
        self.invalidate_old_records_at(now)
    }
}

} // verus!
