//! The request to shorten a URL, the entry that is stored for it, and the
//! state that the handlers share.

use vstd::prelude::*;
use vstd::string::*;
use crate::encoding::{encoded, FULL_LENGTH};
use crate::error::LinkError;
use crate::record::{
    decode, decode_entry, law_entry_round_trip, reads_back, record_bytes, serialize,
};
use crate::store::{db_records, insert, get, lookup};

verus! {

/// What `url::Url::parse` makes of `text`: the serialization of the URL that
/// it reads there, or `None` where it reads no absolute URL.
pub uninterp spec fn url_serialization(text: Seq<char>) -> Option<Seq<char>>;

/// An optional string as the characters it holds.
pub open spec fn text_of(text: Option<String>) -> Option<Seq<char>> {
    match text {
        Some(s) => Some(s@),
        None => None,
    }
}

/// `text` is the serialization of an absolute URL.
pub open spec fn is_url(text: Seq<char>) -> bool {
    exists|raw: Seq<char>| url_serialization(raw) == Some(text)
}

/// Calls `Url::parse` and hands out the serialization of what it read, as
/// `Url::as_str` gives it. The contract names that text and says no more.
#[verifier::external_body]
pub(crate) fn parse_url(text: &str) -> (r: Option<String>)
    ensures
        text_of(r) == url_serialization(text@),
{
    match url::Url::parse(text) {
        Ok(url) => Some(String::from(url)),
        Err(_) => None,
    }
}

/// Reads the clock with `std::time::SystemTime::now`, turns the answer into
/// a `chrono::DateTime<Utc>` with chrono's `From<SystemTime>`, and splits it
/// with `timestamp` and `timestamp_subsec_nanos`. Nothing is stated of the
/// time. The conversion takes a time before 1970 as well as one after it; its
/// range is chrono's own, some 262,000 years to either side.
#[verifier::external_body]
fn utc_now() -> (now: Timestamp) {
    let now = chrono::DateTime::<chrono::Utc>::from(std::time::SystemTime::now());
    Timestamp { secs: now.timestamp(), nanos: now.timestamp_subsec_nanos() }
}

/// A point in time: whole seconds since 1970-01-01T00:00:00Z, and the
/// nanoseconds that have passed of the second after them.
#[derive(Clone, Copy, Debug, PartialEq, Eq, Structural)]
pub struct Timestamp {
    pub secs: i64,
    pub nanos: u32,
}

/// What is stored under a short key.
#[derive(Debug, PartialEq, Eq)]
pub struct ShortenEntry {
    /// Time of creation
    pub created: Timestamp,
    /// The URL that the link leads to
    pub long_url: String,
    /// Remaining number of accesses before expiration, if specified
    pub accesses: Option<usize>,
}

/// A stored entry as a mathematical value.
pub struct EntryView {
    pub created: Timestamp,
    pub long_url: Seq<char>,
    pub accesses: Option<usize>,
}

impl View for ShortenEntry {
    type V = EntryView;

    open spec fn view(&self) -> EntryView {
        EntryView { created: self.created, long_url: self.long_url@, accesses: self.accesses }
    }
}

/// What a caller asks for: a URL to shorten, how long the key should be, and
/// after how many uses the link should expire.
#[derive(Debug, PartialEq, Eq)]
pub struct ShortenReq {
    /// The URL to be shortened
    pub long_url: String,
    /// The desired number of characters in the shorted URL
    pub length: Option<usize>,
    /// Remove the shortened URL after this many accesses
    pub accesses: Option<usize>,
}

/// A request as a mathematical value.
pub struct ReqView {
    pub long_url: Seq<char>,
    pub length: Option<usize>,
    pub accesses: Option<usize>,
}

impl View for ShortenReq {
    type V = ReqView;

    open spec fn view(&self) -> ReqView {
        ReqView { long_url: self.long_url@, length: self.length, accesses: self.accesses }
    }
}

impl ShortenReq {
    /// The request asks for a link to an absolute URL.
    pub open spec fn wf(&self) -> bool {
        is_url(self.long_url@)
    }

    /// Reads `long_url` as an absolute URL. The request holds the URL as it
    /// is serialized, which may differ from the text that was given.
    pub fn parse(long_url: &str, length: Option<usize>, accesses: Option<usize>) -> (r: Option<
        ShortenReq,
    >)
        ensures
            match r {
                Some(req) => {
                    &&& url_serialization(long_url@) == Some(req.long_url@)
                    &&& req.length == length
                    &&& req.accesses == accesses
                    &&& req.wf()
                },
                None => url_serialization(long_url@) is None,
            },
    {
        match parse_url(long_url) {
            Some(text) => Some(ShortenReq { long_url: text, length, accesses }),
            None => None,
        }
    }
}

impl ShortenEntry {
    /// The entry links to an absolute URL.
    pub open spec fn wf(&self) -> bool {
        is_url(self.long_url@)
    }

    /// The entry for `req`, created at `created`.
    pub fn created_at(req: ShortenReq, created: Timestamp) -> (entry: ShortenEntry)
        ensures
            entry@ == (EntryView { created, long_url: req.long_url@, accesses: req.accesses }),
            req.wf() ==> entry.wf(),
    {
        ShortenEntry { created, long_url: req.long_url, accesses: req.accesses }
    }

    /// The entry for `req`, created now.
    pub fn new(req: ShortenReq) -> (entry: ShortenEntry)
        ensures
            entry.long_url@ == req.long_url@,
            entry.accesses == req.accesses,
            req.wf() ==> entry.wf(),
    {
        ShortenEntry::created_at(req, utc_now())
    }
}

impl From<ShortenReq> for ShortenEntry {
    /// The entry for `req`, created now.
    fn from(req: ShortenReq) -> (entry: ShortenEntry)
        ensures
            entry.long_url@ == req.long_url@,
            entry.accesses == req.accesses,
            req.wf() ==> entry.wf(),
    {
        ShortenEntry::new(req)
    }
}

impl vstd::std_specs::convert::FromSpecImpl<ShortenReq> for ShortenEntry {
    /// The time of creation is read from the clock, so no function of the
    /// request gives the entry.
    open spec fn obeys_from_spec() -> bool {
        false
    }

    open spec fn from_spec(req: ShortenReq) -> ShortenEntry {
        ShortenEntry {
            created: Timestamp { secs: 0, nanos: 0 },
            long_url: req.long_url,
            accesses: req.accesses,
        }
    }
}

/// What the handlers share: the store, the name and port under which the
/// service is reached, and the key length where a request names none.
pub struct AppState {
    pub db: sled::Db,
    pub hostname: String,
    pub port: u16,
    pub default_length: usize,
}

/// The entry stored under `key`: none, the one that its record stands for,
/// or a failure where the record stands for none.
pub open spec fn stored_entry(records: Map<Seq<u8>, Seq<u8>>, key: Seq<u8>) -> Result<
    Option<EntryView>,
    LinkError,
> {
    match lookup(records, key) {
        None => Ok(None),
        Some(bytes) => match decode_entry(bytes) {
            Some(entry) => Ok(Some(entry)),
            None => Err(LinkError::Corrupt),
        },
    }
}

/// An optional entry as a mathematical value.
pub open spec fn entry_view(entry: Option<ShortenEntry>) -> Option<EntryView> {
    match entry {
        Some(e) => Some(e@),
        None => None,
    }
}

/// Decodes what a lookup found.
pub fn decode_found(found: Option<Vec<u8>>) -> (r: Result<Option<ShortenEntry>, LinkError>)
    ensures
        match r {
            Ok(entry) => {
                &&& match found {
                    Some(bytes) => decode_entry(bytes@) == entry_view(entry),
                    None => entry is None,
                }
                &&& found is Some <==> entry is Some
                &&& entry matches Some(e) ==> e.wf()
            },
            Err(kind) => {
                &&& kind == LinkError::Corrupt
                &&& found matches Some(bytes)
                &&& decode_entry(bytes@) is None
            },
        },
{
    match found {
        Some(bytes) => match decode(bytes.as_slice()) {
            Ok(entry) => Ok(Some(entry)),
            Err(kind) => Err(kind),
        },
        None => Ok(None),
    }
}

/// Serialize `v` and insert it into the database under `key`, returning the
/// entry that was stored there before. Where the record that was there
/// stands for no entry, the new one is stored all the same and the call
/// reports `Corrupt`.
pub fn ser_insert(db: &mut sled::Db, key: &[u8], v: &ShortenEntry) -> (r: Result<
    Option<ShortenEntry>,
    LinkError,
>)
    ensures
        match r {
            Ok(previous) => {
                &&& db_records(*final(db)) == db_records(*old(db)).insert(key@, record_bytes(v@))
                &&& stored_entry(db_records(*old(db)), key@) == Ok::<_, LinkError>(
                    entry_view(previous),
                )
                &&& previous matches Some(e) ==> e.wf()
            },
            Err(LinkError::Corrupt) => {
                &&& db_records(*final(db)) == db_records(*old(db)).insert(key@, record_bytes(v@))
                &&& stored_entry(db_records(*old(db)), key@) is Err
            },
            Err(kind) => kind == LinkError::StorageIO,
        },
{
    let serialized = serialize(v);
    let old_bytes = match insert(db, key, serialized) {
        Ok(previous) => previous,
        Err(kind) => {
            return Err(kind);
        },
    };
    decode_found(old_bytes)
}

/// Retrieve the entry stored under `key`, if there is one.
pub fn de_get(db: &sled::Db, key: &[u8]) -> (r: Result<Option<ShortenEntry>, LinkError>)
    ensures
        match r {
            Ok(found) => {
                &&& stored_entry(db_records(*db), key@) == Ok::<_, LinkError>(entry_view(found))
                &&& found matches Some(e) ==> e.wf()
            },
            Err(LinkError::Corrupt) => stored_entry(db_records(*db), key@) is Err,
            Err(kind) => kind == LinkError::StorageIO,
        },
{
    match get(db, key) {
        Ok(found) => decode_found(found),
        Err(kind) => Err(kind),
    }
}

/// The directories that the platform gives this project.
#[derive(Debug, PartialEq, Eq)]
pub struct ProjectPaths {
    /// Where the project keeps its data.
    pub data_dir: String,
    /// Where the project keeps data that stays on this machine.
    pub data_local_dir: String,
}

/// Calls `ProjectDirs::from` of `directories` and writes its `data_dir` and
/// `data_local_dir` as text. The answer depends on the platform and on the
/// user's environment; `None` where no home directory is known. Each
/// directory is a base directory of the user, which is never empty, joined
/// with the path of the project, so neither text is empty.
#[verifier::external_body]
fn project_paths(qualifier: &str, organization: &str, application: &str) -> (paths: Option<
    ProjectPaths,
>)
    ensures
        paths matches Some(p) ==> p.data_dir@.len() > 0 && p.data_local_dir@.len() > 0,
{
    let dirs = directories::ProjectDirs::from(qualifier, organization, application)?;
    Some(
        ProjectPaths {
            data_dir: dirs.data_dir().display().to_string(),
            data_local_dir: dirs.data_local_dir().display().to_string(),
        },
    )
}

/// The directories of this project, where the platform names them. Neither
/// is the empty path.
pub fn project_dirs() -> (paths: Option<ProjectPaths>)
    ensures
        paths matches Some(p) ==> p.data_dir@.len() > 0 && p.data_local_dir@.len() > 0,
{
    project_paths("com", "mcaveniathor", "youarel")
}

/// The directory of the database where the platform names one, `db` where
/// it names none.
pub fn data_dir_or_default(found: Option<String>) -> (dir: String)
    ensures
        dir@ == match found {
            Some(path) => path@,
            None => "db"@,
        },
{
    match found {
        Some(path) => path,
        None => String::from_str("db"),
    }
}

/// The directory of the database, of the directories that the platform
/// names: the one for the data of the project, and `db` where it names none.
pub fn database_dir(paths: Option<ProjectPaths>) -> (dir: String)
    ensures
        dir@ == match paths {
            Some(p) => p.data_dir@,
            None => "db"@,
        },
{
    match paths {
        Some(p) => data_dir_or_default(Some(p.data_dir)),
        None => data_dir_or_default(None),
    }
}

/// Where the database lies unless the caller says otherwise: the data
/// directory that the platform gives this project, or `db`. Either way it
/// names a directory: the path is not empty.
pub fn get_project_data_dir() -> (dir: String)
    ensures
        dir@.len() > 0,
{
    proof {
        reveal_strlit("db");
    }
    database_dir(project_dirs())
}

/// What is stored is read back: after `entry` was stored under `key`, the
/// key holds that entry, and every other key holds what it held. This is
/// said of an entry that reads back from its own record.
pub proof fn law_stored_entry_is_read_back(
    records: Map<Seq<u8>, Seq<u8>>,
    key: Seq<u8>,
    entry: EntryView,
)
    requires
        reads_back(entry),
    ensures
        stored_entry(records.insert(key, record_bytes(entry)), key) == Ok::<
            Option<EntryView>,
            LinkError,
        >(Some(entry)),
        forall|other: Seq<u8>|
            other != key ==> stored_entry(records.insert(key, record_bytes(entry)), other)
                == stored_entry(records, other),
{
    law_entry_round_trip(entry);
}

/// Hash `s` with blake3, Base64 encode (URL-safe with no padding) the hash,
/// and truncate to `length` characters.
pub fn encode(s: &str, length: usize) -> (key: String)
    ensures
        key@ == encoded(s@, length as int),
        key@.len() == if length < FULL_LENGTH {
            length
        } else {
            FULL_LENGTH
        },
{
    crate::encoding::encode(s, Some(length))
}

} // verus!
