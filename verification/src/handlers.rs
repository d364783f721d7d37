//! The two requests of the service: make a link, and follow one.

use vstd::prelude::*;
use vstd::string::*;
use vstd::utf8::*;
use crate::encoding::encoded;
use crate::error::LinkError;
use crate::record::{law_entry_round_trip, reads_back, record_bytes, serialize};
use crate::store::{db_records, insert, remove};
use crate::lifecycle::{resolution, Step};
use crate::util::{
    de_get, encode, ser_insert, stored_entry, AppState, EntryView, ReqView, ShortenEntry,
    ShortenReq, Timestamp,
};

verus! {

/// The key under which a request is stored: the key of its URL, as long as
/// the request asks, or as long as the service says where it does not ask.
pub open spec fn request_key(req: ReqView, default_length: usize) -> Seq<char> {
    encoded(
        req.long_url,
        match req.length {
            Some(n) => n as int,
            None => default_length as int,
        },
    )
}

/// The entry that is stored for a request made at `created`.
pub open spec fn request_entry(req: ReqView, created: Timestamp) -> EntryView {
    EntryView { created, long_url: req.long_url, accesses: req.accesses }
}

/// The records after a request made at `created` was stored. What its key
/// held before is replaced, whatever request it came from.
pub open spec fn creation(
    records: Map<Seq<u8>, Seq<u8>>,
    req: ReqView,
    default_length: usize,
    created: Timestamp,
) -> Map<Seq<u8>, Seq<u8>> {
    records.insert(
        encode_utf8(request_key(req, default_length)),
        record_bytes(request_entry(req, created)),
    )
}

/// A result as a mathematical value.
pub open spec fn text_result(r: Result<String, LinkError>) -> Result<Seq<char>, LinkError> {
    match r {
        Ok(text) => Ok(text@),
        Err(kind) => Err(kind),
    }
}

/// What holds after a request made at `created` was handled with result `r`.
/// Success hands out the key and leaves the entry stored. `Corrupt` comes
/// where the key held a record that stands for no entry; the new entry is
/// stored all the same. After `StorageIO` nothing is known of the records.
pub open spec fn created_link(
    before: Map<Seq<u8>, Seq<u8>>,
    after: Map<Seq<u8>, Seq<u8>>,
    req: ReqView,
    default_length: usize,
    created: Timestamp,
    r: Result<Seq<char>, LinkError>,
) -> bool {
    let key = request_key(req, default_length);
    match r {
        Ok(text) => {
            &&& text == key
            &&& after == creation(before, req, default_length, created)
            &&& stored_entry(before, encode_utf8(key)) is Ok
        },
        Err(LinkError::Corrupt) => {
            &&& after == creation(before, req, default_length, created)
            &&& stored_entry(before, encode_utf8(key)) is Err
        },
        Err(kind) => kind == LinkError::StorageIO,
    }
}

/// A link that was made can be followed: once a request is stored, the
/// resolution of its key returns its URL. This is said of a request whose
/// URL reads back as itself, as the serialization of a URL does.
pub proof fn law_created_link_resolves(
    records: Map<Seq<u8>, Seq<u8>>,
    req: ReqView,
    default_length: usize,
    created: Timestamp,
)
    requires
        reads_back(request_entry(req, created)),
    ensures
        stored_entry(
            creation(records, req, default_length, created),
            encode_utf8(request_key(req, default_length)),
        ) == Ok::<Option<EntryView>, LinkError>(Some(request_entry(req, created))),
        resolution(
            creation(records, req, default_length, created),
            encode_utf8(request_key(req, default_length)),
        ).1 == Ok::<Seq<char>, LinkError>(req.long_url),
{
    law_entry_round_trip(request_entry(req, created));
}

/// Two requests with one key: the later one replaces the earlier, and
/// nothing is left of the earlier. The records are the same as if the
/// earlier request had never been made.
pub proof fn law_later_request_replaces(
    records: Map<Seq<u8>, Seq<u8>>,
    earlier: ReqView,
    later: ReqView,
    default_length: usize,
    created_earlier: Timestamp,
    created_later: Timestamp,
)
    requires
        request_key(earlier, default_length) == request_key(later, default_length),
    ensures
        creation(
            creation(records, earlier, default_length, created_earlier),
            later,
            default_length,
            created_later,
        ) == creation(records, later, default_length, created_later),
{
    let key = encode_utf8(request_key(later, default_length));
    let first = record_bytes(request_entry(earlier, created_earlier));
    let second = record_bytes(request_entry(later, created_later));
    assert(records.insert(key, first).insert(key, second) =~= records.insert(key, second));
}

/// Stores `entry` under `key` and hands the key back.
fn publish(state: &mut AppState, key: String, entry: &ShortenEntry) -> (r: Result<
    String,
    LinkError,
>)
    ensures
        final(state).hostname == old(state).hostname,
        final(state).port == old(state).port,
        final(state).default_length == old(state).default_length,
        match r {
            Ok(text) => {
                &&& text@ == key@
                &&& db_records(final(state).db) == db_records(old(state).db).insert(
                    encode_utf8(key@),
                    record_bytes(entry@),
                )
                &&& stored_entry(db_records(old(state).db), encode_utf8(key@)) is Ok
            },
            Err(LinkError::Corrupt) => {
                &&& db_records(final(state).db) == db_records(old(state).db).insert(
                    encode_utf8(key@),
                    record_bytes(entry@),
                )
                &&& stored_entry(db_records(old(state).db), encode_utf8(key@)) is Err
            },
            Err(kind) => kind == LinkError::StorageIO,
        },
{
    match ser_insert(&mut state.db, key.as_str().as_bytes(), entry) {
        Ok(_) => Ok(key),
        Err(kind) => Err(kind),
    }
}

/// Makes the link for a request at a given time: derives the key from the
/// URL, stores the entry under it, and hands out the key.
pub fn accept_form_at(state: &mut AppState, shorten_req: ShortenReq, created: Timestamp) -> (r: Result<
    String,
    LinkError,
>)
    ensures
        final(state).hostname == old(state).hostname,
        final(state).port == old(state).port,
        final(state).default_length == old(state).default_length,
        created_link(
            db_records(old(state).db),
            db_records(final(state).db),
            shorten_req@,
            old(state).default_length,
            created,
            text_result(r),
        ),
{
    let length = match shorten_req.length {
        Some(n) => n,
        None => state.default_length,
    };
    // The encoded value is used as the database key as well
    let encoded = encode(shorten_req.long_url.as_str(), length);
    let entry = ShortenEntry::created_at(shorten_req, created);
    publish(state, encoded, &entry)
}

/// Makes the link for a request now.
pub fn accept_form(state: &mut AppState, shorten_req: ShortenReq) -> (r: Result<String, LinkError>)
    ensures
        final(state).hostname == old(state).hostname,
        final(state).port == old(state).port,
        final(state).default_length == old(state).default_length,
        exists|created: Timestamp|
            created_link(
                db_records(old(state).db),
                db_records(final(state).db),
                shorten_req@,
                old(state).default_length,
                created,
                text_result(r),
            ),
{
    let length = match shorten_req.length {
        Some(n) => n,
        None => state.default_length,
    };
    let encoded = encode(shorten_req.long_url.as_str(), length);
    let ghost req = shorten_req@;
    let entry: ShortenEntry = shorten_req.into();
    let r = publish(state, encoded, &entry);
    proof {
        assert(entry@ == request_entry(req, entry.created));
        assert(created_link(
            db_records(old(state).db),
            db_records(state.db),
            req,
            old(state).default_length,
            entry.created,
            text_result(r),
        ));
    }
    r
}

/// The ten digits, in the order of their values.
pub open spec fn decimal_digits() -> Seq<char> {
    "0123456789"@
}

/// `n` in decimal, without leading zeros.
pub open spec fn decimal(n: nat) -> Seq<char>
    decreases n,
{
    if n < 10 {
        seq![decimal_digits()[n as int]]
    } else {
        decimal(n / 10).push(decimal_digits()[(n % 10) as int])
    }
}

/// The address of the link `key` on a service that is reached under
/// `hostname` at `port`.
pub open spec fn link_address(hostname: Seq<char>, port: u16, key: Seq<char>) -> Seq<char> {
    "https://"@ + hostname + ":"@ + decimal(port as nat) + "/"@ + key
}

/// One digit as text.
fn digit_text(d: u16) -> (text: &'static str)
    requires
        d < 10,
    ensures
        text@ == seq![decimal_digits()[d as int]],
{
    proof {
        reveal_strlit("0123456789");
        reveal_strlit("0");
        reveal_strlit("1");
        reveal_strlit("2");
        reveal_strlit("3");
        reveal_strlit("4");
        reveal_strlit("5");
        reveal_strlit("6");
        reveal_strlit("7");
        reveal_strlit("8");
        reveal_strlit("9");
    }
    let text = match d {
        0 => "0",
        1 => "1",
        2 => "2",
        3 => "3",
        4 => "4",
        5 => "5",
        6 => "6",
        7 => "7",
        8 => "8",
        _ => "9",
    };
    assert(text@ =~= seq![decimal_digits()[d as int]]);
    text
}

/// A port number as text.
pub fn port_text(port: u16) -> (text: String)
    ensures
        text@ == decimal(port as nat),
    decreases port,
{
    if port < 10 {
        String::from_str(digit_text(port))
    } else {
        let mut text = port_text(port / 10);
        text.append(digit_text(port % 10));
        assert(text@ =~= decimal(port as nat));
        text
    }
}

/// The address under which the link `key` is reached.
pub fn short_url(state: &AppState, key: &str) -> (url: String)
    ensures
        url@ == link_address(state.hostname@, state.port, key@),
{
    let mut url = String::from_str("https://");
    url.append(state.hostname.as_str());
    url.append(":");
    url.append(port_text(state.port).as_str());
    url.append("/");
    url.append(key);
    url
}

/// Follows the link `key`: hands out the URL stored for it and takes the
/// step that the access calls for. A key that holds nothing is not found,
/// and a record that stands for no entry is corrupt; neither changes the
/// records. Nor does a failure of the store, unless it comes in writing:
/// that is, unless the entry is a limited one, whose step is a write. Of the
/// records after a write that failed nothing is known.
///
/// The state is borrowed for the whole of it, so no other access to the
/// store comes between the reading of the entry and the step.
pub fn redirect(state: &mut AppState, key: &str) -> (r: Result<String, LinkError>)
    ensures
        final(state).hostname == old(state).hostname,
        final(state).port == old(state).port,
        final(state).default_length == old(state).default_length,
        match r {
            Ok(url) => resolution(db_records(old(state).db), encode_utf8(key@)) == (
                db_records(final(state).db),
                Ok::<Seq<char>, LinkError>(url@),
            ),
            Err(LinkError::NotFound) => {
                &&& db_records(final(state).db) == db_records(old(state).db)
                &&& stored_entry(db_records(old(state).db), encode_utf8(key@)) == Ok::<
                    Option<EntryView>,
                    LinkError,
                >(None)
            },
            Err(LinkError::Corrupt) => {
                &&& db_records(final(state).db) == db_records(old(state).db)
                &&& stored_entry(db_records(old(state).db), encode_utf8(key@)) is Err
            },
            Err(kind) => {
                &&& kind == LinkError::StorageIO
                &&& {
                    ||| db_records(final(state).db) == db_records(old(state).db)
                    ||| match stored_entry(db_records(old(state).db), encode_utf8(key@)) {
                        Ok(Some(entry)) => entry.accesses is Some,
                        _ => false,
                    }
                }
            },
        },
{
    let found = match de_get(&state.db, key.as_bytes()) {
        Ok(found) => found,
        Err(kind) => {
            return Err(kind);
        },
    };
    match found {
        Some(entry) => {
            match entry.step() {
                Step::Keep => {},
                Step::Rewrite(next) => {
                    match insert(&mut state.db, key.as_bytes(), serialize(&next)) {
                        Ok(_) => {},
                        Err(kind) => {
                            return Err(kind);
                        },
                    }
                },
                Step::Delete => {
                    match remove(&mut state.db, key.as_bytes()) {
                        Ok(_) => {},
                        Err(kind) => {
                            return Err(kind);
                        },
                    }
                },
            }
            Ok(entry.long_url)
        },
        None => Err(LinkError::NotFound),
    }
}

} // verus!
