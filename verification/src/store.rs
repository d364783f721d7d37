//! The persistent map from keys to records, kept by `sled`.

use vstd::prelude::*;
use crate::error::LinkError;

verus! {

/// `sled::Db`, a handle on a database. What it holds is spoken of through
/// `db_records`; that stands as long as the tree is written through this
/// handle alone.
#[verifier::external_type_specification]
#[verifier::external_body]
pub struct ExDb(sled::Db);

/// `sled::Error`. Nothing is read from it: whatever `sled` fails with is
/// reported as `StorageIO`.
#[verifier::external_type_specification]
#[verifier::external_body]
pub struct ExStoreError(sled::Error);

/// The records that the default tree of `db` holds, by key.
pub uninterp spec fn db_records(db: sled::Db) -> Map<Seq<u8>, Seq<u8>>;

/// The records of `db` that are safe on disk: the tree as it would be
/// recovered if the system crashed. `sled` also writes to disk on its own,
/// at times of its choosing, so only a flush says anything of this.
pub uninterp spec fn db_durable(db: sled::Db) -> Map<Seq<u8>, Seq<u8>>;

/// What a lookup of `key` in `records` finds.
pub open spec fn lookup(records: Map<Seq<u8>, Seq<u8>>, key: Seq<u8>) -> Option<Seq<u8>> {
    if records.contains_key(key) {
        Some(records[key])
    } else {
        None
    }
}

/// A vector as the bytes it holds, where there is one.
pub open spec fn bytes_of(found: Option<Vec<u8>>) -> Option<Seq<u8>> {
    match found {
        Some(v) => Some(v@),
        None => None,
    }
}

/// Calls `Tree::get` on the default tree. Where the call succeeds it hands
/// out a copy of the value stored under `key`, if there is one.
#[verifier::external_body]
fn db_get(db: &sled::Db, key: &[u8]) -> (r: Result<Option<Vec<u8>>, sled::Error>)
    ensures
        r matches Ok(found) ==> bytes_of(found) == lookup(db_records(*db), key@),
{
    match db.get(key) {
        Ok(Some(value)) => Ok(Some(value.to_vec())),
        Ok(None) => Ok(None),
        Err(e) => Err(e),
    }
}

/// Calls `Tree::insert` on the default tree. Where the call succeeds, `key`
/// holds `value` afterwards, every other key holds what it held, and the
/// value that `key` held before is handed out.
#[verifier::external_body]
fn db_insert(db: &mut sled::Db, key: &[u8], value: Vec<u8>) -> (r: Result<
    Option<Vec<u8>>,
    sled::Error,
>)
    ensures
        r matches Ok(previous) ==> {
            &&& db_records(*final(db)) == db_records(*old(db)).insert(key@, value@)
            &&& bytes_of(previous) == lookup(db_records(*old(db)), key@)
        },
{
    match db.insert(key, value) {
        Ok(Some(previous)) => Ok(Some(previous.to_vec())),
        Ok(None) => Ok(None),
        Err(e) => Err(e),
    }
}

/// Calls `Tree::remove` on the default tree. Where the call succeeds, `key`
/// holds nothing afterwards, every other key holds what it held, and the
/// value that `key` held before is handed out.
#[verifier::external_body]
fn db_remove(db: &mut sled::Db, key: &[u8]) -> (r: Result<Option<Vec<u8>>, sled::Error>)
    ensures
        r matches Ok(previous) ==> {
            &&& db_records(*final(db)) == db_records(*old(db)).remove(key@)
            &&& bytes_of(previous) == lookup(db_records(*old(db)), key@)
        },
{
    match db.remove(key) {
        Ok(Some(previous)) => Ok(Some(previous.to_vec())),
        Ok(None) => Ok(None),
        Err(e) => Err(e),
    }
}

/// Calls `Tree::flush`, which writes what is buffered to disk, calls fsync
/// and hands out the number of bytes written. The tree holds the same
/// records before and after. Where the call succeeds, `sled` guarantees that
/// every write made before it is recovered after a crash: all that the tree
/// holds is then safe on disk.
#[verifier::external_body]
fn db_flush(db: &mut sled::Db) -> (r: Result<usize, sled::Error>)
    ensures
        db_records(*final(db)) == db_records(*old(db)),
        r is Ok ==> db_durable(*final(db)) == db_records(*final(db)),
{
    db.flush()
}

/// Reads the record stored under `key`.
pub fn get(db: &sled::Db, key: &[u8]) -> (r: Result<Option<Vec<u8>>, LinkError>)
    ensures
        match r {
            Ok(found) => bytes_of(found) == lookup(db_records(*db), key@),
            Err(kind) => kind == LinkError::StorageIO,
        },
{
    match db_get(db, key) {
        Ok(found) => Ok(found),
        Err(_) => Err(LinkError::StorageIO),
    }
}

/// Stores `value` under `key` and hands out what was stored there before.
pub fn insert(db: &mut sled::Db, key: &[u8], value: Vec<u8>) -> (r: Result<
    Option<Vec<u8>>,
    LinkError,
>)
    ensures
        match r {
            Ok(previous) => {
                &&& db_records(*final(db)) == db_records(*old(db)).insert(key@, value@)
                &&& bytes_of(previous) == lookup(db_records(*old(db)), key@)
            },
            Err(kind) => kind == LinkError::StorageIO,
        },
{
    match db_insert(db, key, value) {
        Ok(previous) => Ok(previous),
        Err(_) => Err(LinkError::StorageIO),
    }
}

/// Deletes what is stored under `key`. To delete where nothing is stored is
/// no failure.
pub fn remove(db: &mut sled::Db, key: &[u8]) -> (r: Result<(), LinkError>)
    ensures
        match r {
            Ok(_) => db_records(*final(db)) == db_records(*old(db)).remove(key@),
            Err(kind) => kind == LinkError::StorageIO,
        },
{
    match db_remove(db, key) {
        Ok(_) => Ok(()),
        Err(_) => Err(LinkError::StorageIO),
    }
}

/// To delete twice is to delete once.
pub proof fn law_remove_is_idempotent(records: Map<Seq<u8>, Seq<u8>>, key: Seq<u8>)
    ensures
        records.remove(key).remove(key) == records.remove(key),
        !records.contains_key(key) ==> records.remove(key) == records,
{
    assert(records.remove(key).remove(key) =~= records.remove(key));
    if !records.contains_key(key) {
        assert(records.remove(key) =~= records);
    }
}

/// Writes every buffered change to disk; hands out the number of bytes
/// written. The records stay as they are, and where the call succeeds all of
/// them are safe on disk: they are what a crash would leave.
pub fn flush(db: &mut sled::Db) -> (r: Result<usize, LinkError>)
    ensures
        db_records(*final(db)) == db_records(*old(db)),
        match r {
            Ok(_) => db_durable(*final(db)) == db_records(*final(db)),
            Err(kind) => kind == LinkError::StorageIO,
        },
{
    match db_flush(db) {
        Ok(written) => Ok(written),
        Err(_) => Err(LinkError::StorageIO),
    }
}

} // verus!
