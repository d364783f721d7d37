use youarel::error::LinkError;
use youarel::record::{decode, deserialize, serialize};
use youarel::util::{ShortenEntry, Timestamp};

fn record_entry(secs: i64, nanos: u32, url: &str, accesses: Option<usize>) -> ShortenEntry {
    ShortenEntry { created: Timestamp { secs, nanos }, long_url: url.to_string(), accesses }
}

fn record_of_limited() -> Vec<u8> {
    let mut bytes = vec![1, 0, 0, 0, 0, 0, 0, 0];
    bytes.extend_from_slice(&[2, 0, 0, 0]);
    bytes.extend_from_slice(&[12, 0, 0, 0, 0, 0, 0, 0]);
    bytes.extend_from_slice(b"https://a.b/");
    bytes.push(1);
    bytes.extend_from_slice(&[3, 0, 0, 0, 0, 0, 0, 0]);
    bytes
}

#[test]
fn serialize_writes_the_stated_layout() {
    let bytes = serialize(&record_entry(1, 2, "https://a.b/", Some(3)));
    assert_eq!(bytes, record_of_limited());
    assert_eq!(bytes.len(), 8 + 4 + 8 + 12 + 1 + 8);
}

#[test]
fn serialize_writes_no_count_for_an_unlimited_entry() {
    let bytes = serialize(&record_entry(1, 2, "https://a.b/", None));
    let mut expected = record_of_limited();
    expected.truncate(8 + 4 + 8 + 12);
    expected.push(0);
    assert_eq!(bytes, expected);
}

#[test]
fn serialize_writes_integers_little_endian() {
    let bytes = serialize(&record_entry(0x0102030405060708, 0x0a0b0c0d, "", Some(0x1122)));
    assert_eq!(&bytes[0..8], &[8, 7, 6, 5, 4, 3, 2, 1]);
    assert_eq!(&bytes[8..12], &[0x0d, 0x0c, 0x0b, 0x0a]);
    assert_eq!(&bytes[12..20], &[0; 8]);
    assert_eq!(bytes[20], 1);
    assert_eq!(&bytes[21..29], &[0x22, 0x11, 0, 0, 0, 0, 0, 0]);
    assert_eq!(bytes.len(), 29);
}

#[test]
fn serialize_writes_negative_seconds_in_twos_complement() {
    let bytes = serialize(&record_entry(-1, 0, "", None));
    assert_eq!(&bytes[0..8], &[0xff; 8]);
    let bytes = serialize(&record_entry(i64::MIN, 0, "", None));
    assert_eq!(&bytes[0..8], &[0, 0, 0, 0, 0, 0, 0, 0x80]);
}

#[test]
fn serialize_counts_the_bytes_of_the_url_not_its_characters() {
    let bytes = serialize(&record_entry(0, 0, "h\u{e9}", None));
    assert_eq!(&bytes[12..20], &[3, 0, 0, 0, 0, 0, 0, 0]);
    assert_eq!(&bytes[20..23], "h\u{e9}".as_bytes());
}

#[test]
fn deserialize_reads_the_stated_layout() {
    assert_eq!(deserialize(&record_of_limited()), Ok(record_entry(1, 2, "https://a.b/", Some(3))));
}

#[test]
fn round_trip_gives_back_the_entry() {
    let entries = [
        record_entry(0, 0, "", None),
        record_entry(1_700_000_000, 999_999_999, "https://example.com/a-very-long-path", None),
        record_entry(1_700_000_000, 0, "https://example.com/", Some(0)),
        record_entry(-62_135_596_800, 1_999_999_999, "ftp://user@host:21/x?y#z", Some(1)),
        record_entry(i64::MAX, u32::MAX, "not a URL, but text: \u{1F600}", Some(usize::MAX)),
        record_entry(i64::MIN, 1, "a", Some(255)),
    ];
    for e in entries {
        let bytes = serialize(&e);
        assert_eq!(deserialize(&bytes), Ok(e));
    }
}

#[test]
fn deserialize_ignores_what_follows_the_record() {
    let mut bytes = record_of_limited();
    bytes.extend_from_slice(&[9, 9, 9]);
    assert_eq!(deserialize(&bytes), Ok(record_entry(1, 2, "https://a.b/", Some(3))));
}

#[test]
fn deserialize_rejects_short_input() {
    let whole = record_of_limited();
    for len in 0..whole.len() {
        assert_eq!(deserialize(&whole[..len]), Err(LinkError::Corrupt));
    }
}

#[test]
fn deserialize_rejects_a_length_beyond_the_input() {
    let mut bytes = record_of_limited();
    bytes[12] = 200;
    assert_eq!(deserialize(&bytes), Err(LinkError::Corrupt));
    for i in 12..20 {
        bytes[i] = 0xff;
    }
    assert_eq!(deserialize(&bytes), Err(LinkError::Corrupt));
}

#[test]
fn deserialize_rejects_text_that_is_not_utf8() {
    let mut bytes = record_of_limited();
    bytes[20] = 0xff;
    assert_eq!(deserialize(&bytes), Err(LinkError::Corrupt));
    bytes[20] = 0xc0;
    bytes[21] = 0x80;
    assert_eq!(deserialize(&bytes), Err(LinkError::Corrupt));
}

#[test]
fn deserialize_rejects_an_unknown_marker() {
    let mut bytes = record_of_limited();
    bytes[32] = 2;
    assert_eq!(deserialize(&bytes), Err(LinkError::Corrupt));
    bytes[32] = 0xff;
    assert_eq!(deserialize(&bytes), Err(LinkError::Corrupt));
}

#[test]
fn deserialize_reads_marker_zero_as_unlimited() {
    let mut bytes = record_of_limited();
    bytes[32] = 0;
    assert_eq!(deserialize(&bytes), Ok(record_entry(1, 2, "https://a.b/", None)));
    bytes.truncate(33);
    assert_eq!(deserialize(&bytes), Ok(record_entry(1, 2, "https://a.b/", None)));
}

#[test]
fn decode_accepts_a_record_with_a_url() {
    let decoded = decode(&record_of_limited());
    assert_eq!(decoded, Ok(record_entry(1, 2, "https://a.b/", Some(3))));
}

#[test]
fn decode_hands_out_the_url_as_it_is_serialized() {
    let bytes = serialize(&record_entry(5, 6, "HTTPS://Example.COM", Some(1)));
    assert_eq!(decode(&bytes), Ok(record_entry(5, 6, "https://example.com/", Some(1))));
}

#[test]
fn decode_rejects_text_that_is_no_absolute_url() {
    for text in ["", "not a url", "/relative/path", "example.com", "//example.com/x"] {
        let bytes = serialize(&record_entry(5, 6, text, None));
        assert_eq!(deserialize(&bytes), Ok(record_entry(5, 6, text, None)));
        assert_eq!(decode(&bytes), Err(LinkError::Corrupt));
    }
}

#[test]
fn decode_rejects_what_deserialize_rejects() {
    assert_eq!(decode(&[]), Err(LinkError::Corrupt));
    assert_eq!(decode(&[1, 2, 3]), Err(LinkError::Corrupt));
    let mut bytes = record_of_limited();
    bytes[32] = 7;
    assert_eq!(decode(&bytes), Err(LinkError::Corrupt));
}

#[test]
fn entry_with_a_serialized_url_is_canonical() {
    assert!(record_entry(0, 0, "https://example.com/", None).is_canonical());
    assert!(record_entry(0, 0, "https://example.com/a%20b?c=d#e", Some(1)).is_canonical());
    assert!(record_entry(0, 0, "mailto:someone@example.com", Some(1)).is_canonical());
}

#[test]
fn entry_with_other_text_is_not_canonical() {
    assert!(!record_entry(0, 0, "https://example.com", None).is_canonical());
    assert!(!record_entry(0, 0, "HTTPS://example.com/", None).is_canonical());
    assert!(!record_entry(0, 0, "https://example.com/a b", None).is_canonical());
    assert!(!record_entry(0, 0, "not a url", None).is_canonical());
    assert!(!record_entry(0, 0, "", None).is_canonical());
}

#[test]
fn canonical_entry_is_decoded_from_its_own_record() {
    let e = record_entry(3, 4, "https://example.com/path", Some(2));
    assert!(e.is_canonical());
    assert_eq!(decode(&serialize(&e)), Ok(e));
}
