//! The bytes of a stored entry. `bincode` writes and reads them; the layout
//! is stated here and the two directions are proved to agree.

use vstd::prelude::*;
use vstd::bytes::*;
use vstd::utf8::*;
use crate::error::LinkError;
use crate::util::{parse_url, url_serialization, EntryView, ShortenEntry, Timestamp};

verus! {

/// `bincode::ErrorKind`, which `bincode::Error` boxes. Nothing is read from
/// it: whatever `bincode` refuses is reported as `Corrupt`.
#[verifier::external_type_specification]
#[verifier::external_body]
pub struct ExCodecError(bincode::ErrorKind);

/// The end of a record: one byte that says whether a count follows, and the
/// count in eight bytes.
pub open spec fn accesses_bytes(accesses: Option<usize>) -> Seq<u8> {
    match accesses {
        None => seq![0u8],
        Some(n) => seq![1u8] + spec_u64_to_le_bytes(n as u64),
    }
}

/// The record of an entry. Integers are little-endian; the seconds are
/// written as the unsigned number with the same 64 bits; the URL is its
/// UTF-8 text after the number of its bytes.
pub open spec fn record_bytes(entry: EntryView) -> Seq<u8> {
    let url = encode_utf8(entry.long_url);
    spec_u64_to_le_bytes(entry.created.secs as u64) + spec_u32_to_le_bytes(entry.created.nanos)
        + spec_u64_to_le_bytes(url.len() as u64) + url + accesses_bytes(entry.accesses)
}

/// The entry that `bytes` begin with, or `None` where they begin with no
/// record: too few bytes, a URL that is not UTF-8, a marker other than 0 and
/// 1, or a count that a `usize` cannot hold. Bytes after the record are
/// ignored.
pub open spec fn parse_record(bytes: Seq<u8>) -> Option<EntryView> {
    if bytes.len() < 20 {
        None
    } else {
        let secs = spec_u64_from_le_bytes(bytes.subrange(0, 8)) as i64;
        let nanos = spec_u32_from_le_bytes(bytes.subrange(8, 12));
        let end = 20 + spec_u64_from_le_bytes(bytes.subrange(12, 20));
        if bytes.len() <= end || !valid_utf8(bytes.subrange(20, end)) {
            None
        } else {
            let created = Timestamp { secs, nanos };
            let long_url = decode_utf8(bytes.subrange(20, end));
            if bytes[end] == 0 {
                Some(EntryView { created, long_url, accesses: None })
            } else if bytes[end] == 1 && end + 9 <= bytes.len() {
                let count = spec_u64_from_le_bytes(bytes.subrange(end + 1, end + 9));
                if count <= usize::MAX {
                    Some(EntryView { created, long_url, accesses: Some(count as usize) })
                } else {
                    None
                }
            } else {
                None
            }
        }
    }
}

/// Bytes that begin with the record of an entry parse to that entry,
/// whatever follows the record. The bound is on the text of the URL: the
/// number of its bytes must fit the eight bytes that it is written in, as
/// that of any text in memory does.
pub proof fn lemma_record_parses(entry: EntryView, rest: Seq<u8>)
    requires
        encode_utf8(entry.long_url).len() <= u64::MAX,
    ensures
        parse_record(record_bytes(entry) + rest) == Some(entry),
{
    let url = encode_utf8(entry.long_url);
    let bytes = record_bytes(entry) + rest;
    let end = 20 + url.len() as int;
    lemma_auto_spec_u64_to_from_le_bytes();
    lemma_auto_spec_u32_to_from_le_bytes();
    assert(bytes.subrange(0, 8) =~= spec_u64_to_le_bytes(entry.created.secs as u64));
    assert(bytes.subrange(8, 12) =~= spec_u32_to_le_bytes(entry.created.nanos));
    assert(bytes.subrange(12, 20) =~= spec_u64_to_le_bytes(url.len() as u64));
    assert(bytes.subrange(20, end) =~= url);
    let secs = entry.created.secs;
    assert((secs as u64) as i64 == secs) by (bit_vector);
    encode_utf8_valid_utf8(entry.long_url);
    encode_utf8_decode_utf8(entry.long_url);
    assert(bytes[end] == accesses_bytes(entry.accesses)[0]);
    if let Some(n) = entry.accesses {
        assert(bytes.subrange(end + 1, end + 9) =~= spec_u64_to_le_bytes(n as u64));
    }
    assert(parse_record(bytes) =~= Some(entry));
}

/// Reading gives back what was written: the record of an entry parses to
/// that entry.
pub proof fn law_record_round_trip(entry: EntryView)
    requires
        encode_utf8(entry.long_url).len() <= u64::MAX,
    ensures
        parse_record(record_bytes(entry)) == Some(entry),
{
    lemma_record_parses(entry, Seq::empty());
    assert(record_bytes(entry) + Seq::<u8>::empty() =~= record_bytes(entry));
}

/// Calls `bincode::serialize` on the entry's fields as a tuple: seconds,
/// nanoseconds, URL, remaining accesses. With the options of that function
/// (fixed-width little-endian integers, a string after its length in eight
/// bytes, one byte before an optional value) the bytes are `record_bytes`.
/// The call does not fail on such a tuple: it writes to a vector, it sets no
/// limit to the size, and integers, a string and an optional integer have
/// nothing about them that a serializer refuses.
#[verifier::external_body]
fn bincode_serialize(entry: &ShortenEntry) -> (r: Result<Vec<u8>, bincode::Error>)
    ensures
        r is Ok,
        r matches Ok(bytes) ==> bytes@ == record_bytes(entry@),
{
    bincode::serialize(
        &(entry.created.secs, entry.created.nanos, entry.long_url.as_str(), entry.accesses),
    )
}

/// Calls `bincode::deserialize` for a tuple of seconds, nanoseconds, URL and
/// remaining accesses, and moves the four into an entry. The call fails on
/// exactly the bytes that begin with no record, and accepts bytes after one.
#[verifier::external_body]
fn bincode_deserialize(bytes: &[u8]) -> (r: Result<ShortenEntry, bincode::Error>)
    ensures
        match r {
            Ok(entry) => parse_record(bytes@) == Some(entry@),
            Err(_) => parse_record(bytes@) is None,
        },
{
    let (secs, nanos, long_url, accesses) = bincode::deserialize::<
        (i64, u32, String, Option<usize>),
    >(bytes)?;
    Ok(ShortenEntry { created: Timestamp { secs, nanos }, long_url, accesses })
}

/// Writes an entry as its record.
pub fn serialize(entry: &ShortenEntry) -> (bytes: Vec<u8>)
    ensures
        bytes@ == record_bytes(entry@),
{
    match bincode_serialize(entry) {
        Ok(bytes) => bytes,
        Err(_) => unreached(),
    }
}

/// Reads the entry that `bytes` begin with.
pub fn deserialize(bytes: &[u8]) -> (r: Result<ShortenEntry, LinkError>)
    ensures
        match r {
            Ok(entry) => parse_record(bytes@) == Some(entry@),
            Err(kind) => kind == LinkError::Corrupt && parse_record(bytes@) is None,
        },
{
    match bincode_deserialize(bytes) {
        Ok(entry) => Ok(entry),
        Err(_) => Err(LinkError::Corrupt),
    }
}

/// The entry that a stored record stands for: the record as it parses, with
/// its URL read as a URL once more. `None` where the bytes begin with no
/// record or the text in it is no absolute URL.
pub open spec fn decode_entry(bytes: Seq<u8>) -> Option<EntryView> {
    match parse_record(bytes) {
        Some(record) => match url_serialization(record.long_url) {
            Some(long_url) => Some(
                EntryView { created: record.created, long_url, accesses: record.accesses },
            ),
            None => None,
        },
        None => None,
    }
}

/// The URL of `entry` reads as itself, and the number of its bytes fits the
/// eight bytes that it is written in. Such an entry is read back from its own
/// record.
pub open spec fn reads_back(entry: EntryView) -> bool {
    &&& url_serialization(entry.long_url) == Some(entry.long_url)
    &&& encode_utf8(entry.long_url).len() <= u64::MAX
}

/// Decoding gives back what was written: the record of an entry that reads
/// back stands for that entry.
pub proof fn law_entry_round_trip(entry: EntryView)
    requires
        reads_back(entry),
    ensures
        decode_entry(record_bytes(entry)) == Some(entry),
{
    law_record_round_trip(entry);
}

impl ShortenEntry {
    /// Whether this entry reads back from its own record: whether its URL,
    /// read as a URL once more, is the same text.
    pub fn is_canonical(&self) -> (yes: bool)
        ensures
            yes == reads_back(self@),
    {
        let text = self.long_url.as_str();
        let size = text.as_bytes().len();
        assert(encode_utf8(self@.long_url).len() == size);
        match parse_url(text) {
            Some(again) => again == self.long_url,
            None => false,
        }
    }
}

/// Reads a stored record and checks the URL in it.
pub fn decode(bytes: &[u8]) -> (r: Result<ShortenEntry, LinkError>)
    ensures
        match r {
            Ok(entry) => decode_entry(bytes@) == Some(entry@) && entry.wf(),
            Err(kind) => kind == LinkError::Corrupt && decode_entry(bytes@) is None,
        },
{
    match deserialize(bytes) {
        Ok(record) => match parse_url(record.long_url.as_str()) {
            Some(long_url) => Ok(
                ShortenEntry { created: record.created, long_url, accesses: record.accesses },
            ),
            None => Err(LinkError::Corrupt),
        },
        Err(kind) => Err(kind),
    }
}

} // verus!
