//! The persistent backend: records in one tree of a sled database, each
//! stored as the bytes that [`format_db_value`] writes.
//!
//! The store takes the tree to be its own: what the tree holds changes
//! through this store alone.

use crate::clock::unix_now;
use crate::record::{
    decode_of_record_bytes, decode_record, format_db_value, parse_db_value, record_bytes,
};
use crate::storage::{expiry_time, is_expired, put, swept, Record, Storage, StorageError};
use vstd::prelude::*;
use vstd::string::StrSliceExecFns;
use vstd::utf8::{encode_utf8, encode_utf8_decode_utf8};

verus! {

#[verifier::external_type_specification]
#[verifier::external_body]
pub struct ExDb(sled::Db);

#[verifier::external_type_specification]
#[verifier::external_body]
pub struct ExTree(sled::Tree);

#[verifier::external_type_specification]
#[verifier::external_body]
pub struct ExError(sled::Error);

/// What a tree holds: its values by their keys.
pub uninterp spec fn tree_contents(tree: sled::Tree) -> Map<Seq<u8>, Seq<u8>>;

/// `entries` lists what `contents` holds: every entry is a key of it with
/// its value, and every key of it has an entry.
pub open spec fn lists_contents(
    entries: Seq<(Vec<u8>, Vec<u8>)>,
    contents: Map<Seq<u8>, Seq<u8>>,
) -> bool {
    &&& forall|i: int|
        0 <= i < entries.len() ==> contents.contains_key((#[trigger] entries[i]).0@)
            && contents[entries[i].0@] == entries[i].1@
    &&& forall|k: Seq<u8>| #[trigger]
        contents.contains_key(k) ==> exists|i: int|
            0 <= i < entries.len() && (#[trigger] entries[i]).0@ == k
}

/// Opens the database at `path`, creating it where there is none, by
/// `sled::open`. Trusted; nothing is claimed of what the database holds.
#[verifier::external_body]
fn open_db(path: &str) -> (db: Result<sled::Db, sled::Error>) {
    sled::open(path)
}

/// Opens the tree `name` of a database, creating it where there is none,
/// by `Db::open_tree`. Trusted; nothing is claimed of what the tree holds.
#[verifier::external_body]
fn open_tree(db: &sled::Db, name: &str) -> (tree: Result<sled::Tree, sled::Error>) {
    db.open_tree(name)
}

/// Sets `key` to `value`, by `Tree::insert`. Trusted: where sled reports
/// success the tree holds `value` under `key` and is otherwise as before.
/// Nothing is claimed where it reports an error.
#[verifier::external_body]
fn tree_insert(tree: &mut sled::Tree, key: &[u8], value: Vec<u8>) -> (r: Result<(), sled::Error>)
    ensures
        r is Ok ==> tree_contents(*final(tree)) == tree_contents(*old(tree)).insert(key@, value@),
{
    tree.insert(key, value).map(|_| ())
}

/// Looks `key` up, by `Tree::get`. Trusted: where sled reports success the
/// result is the value the tree holds under `key`, if it holds one.
#[verifier::external_body]
fn tree_get(tree: &sled::Tree, key: &[u8]) -> (r: Result<Option<Vec<u8>>, sled::Error>)
    ensures
        match r {
            Ok(Some(value)) => tree_contents(*tree).contains_key(key@) && tree_contents(
                *tree,
            )[key@] == value@,
            Ok(None) => !tree_contents(*tree).contains_key(key@),
            Err(_) => true,
        },
{
    tree.get(key).map(|found| found.map(|value| value.to_vec()))
}

/// Deletes `key`, by `Tree::remove`. Trusted: where sled reports success
/// the tree holds nothing under `key` and is otherwise as before. Nothing
/// is claimed where it reports an error.
#[verifier::external_body]
fn tree_remove(tree: &mut sled::Tree, key: &[u8]) -> (r: Result<(), sled::Error>)
    ensures
        r is Ok ==> tree_contents(*final(tree)) == tree_contents(*old(tree)).remove(key@),
{
    tree.remove(key).map(|_| ())
}

/// Every key of the tree with its value, by `Tree::iter`. Trusted: where
/// no step of the walk reports an error, the entries are what the tree
/// holds.
#[verifier::external_body]
fn tree_entries(tree: &sled::Tree) -> (r: Result<Vec<(Vec<u8>, Vec<u8>)>, sled::Error>)
    ensures
        r matches Ok(entries) ==> lists_contents(entries@, tree_contents(*tree)),
{
    tree.iter().map(|entry| entry.map(|(key, value)| (key.to_vec(), value.to_vec()))).collect()
}

/// The record that stored bytes hold, where they hold one.
pub open spec fn decoded_record(raw: Seq<u8>) -> Record {
    Record { expires_at: decode_record(raw)->Ok_0.0, value: decode_record(raw)->Ok_0.1 }
}

/// The records that a tree's contents stand for: under each text key, the
/// record that the bytes stored under the key's UTF-8 form decode to.
/// Entries whose bytes are not a record stand for nothing.
pub open spec fn decoded(contents: Map<Seq<u8>, Seq<u8>>) -> Map<Seq<char>, Record> {
    Map::new(
        |k: Seq<char>|
            contents.contains_key(encode_utf8(k)) && decode_record(contents[encode_utf8(k)]) is Ok,
        |k: Seq<char>| decoded_record(contents[encode_utf8(k)]),
    )
}

/// The entries that a sweep at time `now` leaves: those whose record has
/// not expired, unchanged.
pub open spec fn unexpired(contents: Map<Seq<u8>, Seq<u8>>, now: u64) -> Map<Seq<u8>, Seq<u8>> {
    Map::new(
        |k: Seq<u8>| contents.contains_key(k) && !is_expired(decoded_record(contents[k]), now),
        |k: Seq<u8>| contents[k],
    )
}

/// What a sweep at time `now` that ended with `r` has made of the entries
/// `before`.
///
/// A sweep that succeeds found a record in every entry and left exactly
/// the unexpired ones. A sweep that met bytes that are no record stopped
/// there: it added and changed nothing, and removed no unexpired record.
/// Nothing is known after a failure of the engine, and a sweep reports no
/// other error.
pub open spec fn sweep_result(
    before: Map<Seq<u8>, Seq<u8>>,
    after: Map<Seq<u8>, Seq<u8>>,
    now: u64,
    r: Result<(), StorageError>,
) -> bool {
    match r {
        Ok(()) => {
            &&& forall|k: Seq<u8>|
                before.contains_key(k) ==> decode_record(#[trigger] before[k]) is Ok
            &&& after == unexpired(before, now)
        },
        Err(StorageError::Corrupt(e)) => {
            &&& exists|k: Seq<u8>|
                before.contains_key(k) && decode_record(#[trigger] before[k]) == Err::<
                    (u64, Seq<char>),
                    _,
                >(e)
            &&& decoded(after).submap_of(decoded(before))
            &&& forall|k: Seq<char>|
                decoded(before).contains_key(k) && !is_expired(decoded(before)[k], now)
                    ==> #[trigger] decoded(after).contains_key(k)
        },
        Err(StorageError::Backend) => true,
        Err(StorageError::ExpiryOverflow) => false,
    }
}

/// Writing the bytes of a record under the UTF-8 form of a key is writing
/// the record under the key.
proof fn decoded_after_insert(
    contents: Map<Seq<u8>, Seq<u8>>,
    key: Seq<char>,
    value: Seq<char>,
    expires_at: u64,
)
    ensures
        decoded(contents.insert(encode_utf8(key), record_bytes(expires_at, value)))
            == put(decoded(contents), key, value, expires_at),
{
    let after = contents.insert(encode_utf8(key), record_bytes(expires_at, value));
    decode_of_record_bytes(expires_at, value);
    encode_utf8_decode_utf8(key);
    assert forall|k: Seq<char>| k != key implies encode_utf8(k) != encode_utf8(key) by {
        encode_utf8_decode_utf8(k);
    }
    assert(decoded(after) =~= put(decoded(contents), key, value, expires_at));
}

/// The persistent backend.
pub struct SledStorage {
    tree: sled::Tree,
}

impl SledStorage {
    /// What the tree holds: the stored bytes, by the bytes of their keys.
    pub closed spec fn contents(&self) -> Map<Seq<u8>, Seq<u8>> {
        tree_contents(self.tree)
    }

    /// The store over what opening a tree gave: the store that holds what
    /// the tree holds, or the failure of the engine where there is no tree.
    pub fn over(opened: Result<sled::Tree, sled::Error>) -> (r: Result<Self, StorageError>)
        ensures
            match opened {
                Ok(tree) => r matches Ok(storage) && storage.wf() && storage.contents()
                    == tree_contents(tree),
                Err(_) => r matches Err(e) && e == StorageError::Backend,
            },
    {
        match opened {
            Ok(tree) => Ok(SledStorage { tree }),
            Err(_) => Err(StorageError::Backend),
        }
    }

    /// Opens the store kept in the database at path `name`, creating it
    /// where there is none. The records of an earlier run are still there.
    pub fn new(name: &str) -> (r: Result<Self, StorageError>)
        ensures
            match r {
                Ok(storage) => storage.wf(),
                Err(e) => e == StorageError::Backend,
            },
    {
        match open_db(name) {
            Ok(db) => Self::over(open_tree(&db, "records")),
            Err(e) => Self::over(Err(e)),
        }
    }
}

impl Storage for SledStorage {
    open spec fn records(&self) -> Map<Seq<char>, Record> {
        decoded(self.contents())
    }

    closed spec fn wf(&self) -> bool {
        true
    }

    open spec fn never_fails(&self) -> bool {
        false
    }

    fn add_record_at(&mut self, key: &str, value: &str, ttl: u64, now: u64) -> (r: Result<
        (),
        StorageError,
    >)
        ensures
            r is Err ==> r == Err::<(), _>(StorageError::Backend),
            r is Ok ==> final(self).contents() == old(self).contents().insert(
                encode_utf8(key@),
                record_bytes((now + ttl) as u64, value@),
            ),
    {
        let raw = format_db_value(now + ttl, value);
        match tree_insert(&mut self.tree, key.as_bytes(), raw) {
            Ok(()) => {
                proof {
                    decoded_after_insert(
                        old(self).contents(),
                        key@,
                        value@,
                        (now + ttl) as u64,
                    );
                }
                Ok(())
            },
            Err(_) => Err(StorageError::Backend),
        }
    }

    fn add_record(&mut self, key: &str, value: &str, ttl: u64) -> (r: Result<(), StorageError>)
        ensures
            r is Err ==> r == Err::<(), _>(StorageError::Backend) || r == Err::<(), _>(
                StorageError::ExpiryOverflow,
            ),
    {
        let now = unix_now();
        match expiry_time(now, ttl) {
            Some(_) => self.add_record_at(key, value, ttl, now),
            None => Err(StorageError::ExpiryOverflow),
        }
    }

    fn get_record(&self, key: &str) -> (r: Result<Option<Vec<u8>>, StorageError>)
        ensures
            r is Ok ==> (r == Ok::<_, StorageError>(None::<Vec<u8>>) <==> !self.contents().contains_key(
                encode_utf8(key@),
            )),
            r matches Err(StorageError::Corrupt(e)) ==> self.contents().contains_key(
                encode_utf8(key@),
            ) && decode_record(self.contents()[encode_utf8(key@)]) == Err::<(u64, Seq<char>), _>(e),
    {
        match tree_get(&self.tree, key.as_bytes()) {
            Err(_) => Err(StorageError::Backend),
            Ok(None) => Ok(None),
            Ok(Some(raw)) => match parse_db_value(raw.as_slice()) {
                Ok((_, value)) => Ok(Some(value.as_str().as_bytes_vec())),
                Err(e) => Err(StorageError::Corrupt(e)),
            },
        }
    }

    fn invalidate_old_records_at(&mut self, now: u64) -> (r: Result<(), StorageError>)
        ensures
            sweep_result(old(self).contents(), final(self).contents(), now, r),
    {
        let entries = match tree_entries(&self.tree) {
            Ok(entries) => entries,
            Err(_) => {
                return Err(StorageError::Backend);
            },
        };
        let ghost before = self.contents();
        let mut i: usize = 0;
        while i < entries.len()
            invariant
                0 <= i <= entries.len(),
                before == old(self).contents(),
                lists_contents(entries@, before),
                forall|k: Seq<u8>| #[trigger]
                    self.contents().contains_key(k) ==> before.contains_key(k)
                        && self.contents()[k] == before[k],
                forall|k: Seq<u8>|
                    before.contains_key(k) && !(decode_record(before[k]) is Ok && decoded_record(
                        before[k],
                    ).expires_at < now) ==> #[trigger] self.contents().contains_key(k),
                forall|j: int|
                    0 <= j < i ==> decode_record((#[trigger] entries[j]).1@) is Ok,
                forall|j: int|
                    0 <= j < i && decoded_record((#[trigger] entries[j]).1@).expires_at < now
                        ==> !self.contents().contains_key(entries[j].0@),
            decreases entries.len() - i,
        {
            let entry = &entries[i];
            let expires_at = match parse_db_value(entry.1.as_slice()) {
                Ok((expires_at, _)) => expires_at,
                Err(e) => {
                    proof {
                        let after = self.contents();
                        assert(before.contains_key(entry.0@) && before[entry.0@] == entry.1@);
                        assert forall|k: Seq<char>| #[trigger]
                            decoded(after).contains_key(k) implies decoded(before).contains_key(k)
                            && decoded(after)[k] == decoded(before)[k] by {
                            assert(before.contains_key(encode_utf8(k)));
                        }
                        assert forall|k: Seq<char>|
                            decoded(before).contains_key(k) && !is_expired(
                                decoded(before)[k],
                                now,
                            ) implies #[trigger] decoded(after).contains_key(k) by {
                            assert(after.contains_key(encode_utf8(k)));
                        }
                    }
                    return Err(StorageError::Corrupt(e));
                },
            };
            if expires_at < now {
                match tree_remove(&mut self.tree, entry.0.as_slice()) {
                    Ok(()) => {},
                    Err(_) => {
                        return Err(StorageError::Backend);
                    },
                }
            }
            i += 1;
        }
        proof {
            let after = self.contents();
            assert forall|k: Seq<u8>| #[trigger] after.contains_key(k) implies !(decode_record(
                before[k],
            ) is Ok && decoded_record(before[k]).expires_at < now) by {
                assert(before.contains_key(k));
                let j = choose|j: int| 0 <= j < entries.len() && (#[trigger] entries[j]).0@ == k;
                assert(entries[j].1@ == before[k]);
            }
            assert forall|k: Seq<u8>| before.contains_key(k) implies decode_record(
                #[trigger] before[k],
            ) is Ok by {
                let j = choose|j: int| 0 <= j < entries.len() && (#[trigger] entries[j]).0@ == k;
                assert(entries[j].1@ == before[k]);
            }
            assert(after =~= unexpired(before, now));
            assert forall|k: Seq<char>| #[trigger]
                decoded(after).contains_key(k) == swept(decoded(before), now).contains_key(
                    k,
                ) by {
                let stored = encode_utf8(k);
                if after.contains_key(stored) {
                    assert(before.contains_key(stored) && after[stored] == before[stored]);
                }
                if decoded(before).contains_key(k) && decoded_record(before[stored]).expires_at
                    >= now {
                    assert(after.contains_key(stored));
                }
            }
            assert(decoded(after) =~= swept(decoded(before), now));
        }
        Ok(())
    }

    fn invalidate_old_records(&mut self) -> (r: Result<(), StorageError>)
        ensures
            exists|now: u64| #[trigger]
                sweep_result(old(self).contents(), final(self).contents(), now, r),
    {
        let now = unix_now();
        let r = self.invalidate_old_records_at(now);
        assert(sweep_result(old(self).contents(), self.contents(), now, r));
        r
    }
}

} // verus!
