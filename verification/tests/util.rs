use youarel::error::LinkError;
use youarel::record::serialize;
use youarel::store::{flush, get, insert, remove};
use youarel::util::{
    data_dir_or_default, database_dir, de_get, decode_found, get_project_data_dir, project_dirs,
    ser_insert, ProjectPaths, ShortenEntry, ShortenReq, Timestamp,
};

fn temporary_db() -> sled::Db {
    sled::Config::new().temporary(true).open().unwrap()
}

fn stored(url: &str, accesses: Option<usize>) -> ShortenEntry {
    ShortenEntry {
        created: Timestamp { secs: 1_700_000_000, nanos: 42 },
        long_url: url.to_string(),
        accesses,
    }
}

#[test]
fn parse_keeps_length_and_accesses() {
    let req = ShortenReq::parse("https://example.com/a", Some(10), Some(3)).unwrap();
    assert_eq!(req.long_url, "https://example.com/a");
    assert_eq!(req.length, Some(10));
    assert_eq!(req.accesses, Some(3));
    let req = ShortenReq::parse("https://example.com/a", None, None).unwrap();
    assert_eq!(req.length, None);
    assert_eq!(req.accesses, None);
}

#[test]
fn parse_holds_the_url_as_it_is_serialized() {
    let req = ShortenReq::parse("HTTPS://Example.com", None, None).unwrap();
    assert_eq!(req.long_url, "https://example.com/");
    let req = ShortenReq::parse("https://example.com/a b", None, None).unwrap();
    assert_eq!(req.long_url, "https://example.com/a%20b");
}

#[test]
fn parse_rejects_what_is_no_absolute_url() {
    for text in ["", "example.com", "/a/b", "not a url", "http://", "//host/path"] {
        assert_eq!(ShortenReq::parse(text, Some(8), None), None);
    }
}

#[test]
fn created_at_takes_the_url_and_the_limit_of_the_request() {
    let req = ShortenReq::parse("https://example.com/x", Some(4), Some(7)).unwrap();
    let at = Timestamp { secs: 10, nanos: 20 };
    let made = ShortenEntry::created_at(req, at);
    assert_eq!(
        made,
        ShortenEntry { created: at, long_url: "https://example.com/x".to_string(), accesses: Some(7) }
    );
}

#[test]
fn new_entry_is_stamped_with_the_current_time() {
    let req = ShortenReq::parse("https://example.com/x", None, Some(2)).unwrap();
    let made = ShortenEntry::new(req);
    assert_eq!(made.long_url, "https://example.com/x");
    assert_eq!(made.accesses, Some(2));
    // Later than 2020-01-01 and with a whole number of nanoseconds below two seconds.
    assert!(made.created.secs > 1_577_836_800);
    assert!(made.created.nanos < 2_000_000_000);
}

#[test]
fn entry_from_request_keeps_url_and_limit() {
    let req = ShortenReq::parse("https://example.com/y", Some(3), None).unwrap();
    let made: ShortenEntry = req.into();
    assert_eq!(made.long_url, "https://example.com/y");
    assert_eq!(made.accesses, None);
    assert!(made.created.secs > 1_577_836_800);
}

#[test]
fn store_get_finds_what_insert_stored() {
    let mut db = temporary_db();
    assert_eq!(get(&db, b"k"), Ok(None));
    assert_eq!(insert(&mut db, b"k", vec![1, 2, 3]), Ok(None));
    assert_eq!(get(&db, b"k"), Ok(Some(vec![1, 2, 3])));
    assert_eq!(get(&db, b"other"), Ok(None));
}

#[test]
fn store_insert_hands_out_the_value_it_replaces() {
    let mut db = temporary_db();
    assert_eq!(insert(&mut db, b"k", vec![1]), Ok(None));
    assert_eq!(insert(&mut db, b"k", vec![2, 2]), Ok(Some(vec![1])));
    assert_eq!(insert(&mut db, b"j", vec![3]), Ok(None));
    assert_eq!(get(&db, b"k"), Ok(Some(vec![2, 2])));
    assert_eq!(get(&db, b"j"), Ok(Some(vec![3])));
}

#[test]
fn store_remove_deletes_one_key() {
    let mut db = temporary_db();
    insert(&mut db, b"a", vec![1]).unwrap();
    insert(&mut db, b"b", vec![2]).unwrap();
    assert_eq!(remove(&mut db, b"a"), Ok(()));
    assert_eq!(get(&db, b"a"), Ok(None));
    assert_eq!(get(&db, b"b"), Ok(Some(vec![2])));
}

#[test]
fn store_remove_of_an_absent_key_is_no_failure() {
    let mut db = temporary_db();
    assert_eq!(remove(&mut db, b"absent"), Ok(()));
    insert(&mut db, b"a", vec![1]).unwrap();
    assert_eq!(remove(&mut db, b"a"), Ok(()));
    assert_eq!(remove(&mut db, b"a"), Ok(()));
    assert_eq!(get(&db, b"a"), Ok(None));
}

#[test]
fn store_accepts_the_empty_key_and_the_empty_value() {
    let mut db = temporary_db();
    assert_eq!(insert(&mut db, b"", vec![]), Ok(None));
    assert_eq!(get(&db, b""), Ok(Some(vec![])));
    assert_eq!(remove(&mut db, b""), Ok(()));
    assert_eq!(get(&db, b""), Ok(None));
}

#[test]
fn store_flush_leaves_the_records() {
    let mut db = temporary_db();
    insert(&mut db, b"a", vec![1]).unwrap();
    assert!(flush(&mut db).is_ok());
    assert_eq!(get(&db, b"a"), Ok(Some(vec![1])));
}

#[test]
fn ser_insert_stores_the_record_of_the_entry() {
    let mut db = temporary_db();
    let e = stored("https://example.com/", Some(2));
    assert_eq!(ser_insert(&mut db, b"key", &e), Ok(None));
    assert_eq!(get(&db, b"key"), Ok(Some(serialize(&e))));
}

#[test]
fn ser_insert_returns_the_previous_entry() {
    let mut db = temporary_db();
    let first = stored("https://example.com/1", None);
    let second = stored("https://example.com/2", Some(5));
    assert_eq!(ser_insert(&mut db, b"key", &first), Ok(None));
    assert_eq!(ser_insert(&mut db, b"key", &second), Ok(Some(first)));
    assert_eq!(de_get(&db, b"key"), Ok(Some(second)));
}

#[test]
fn ser_insert_over_a_corrupt_record_stores_and_reports() {
    let mut db = temporary_db();
    insert(&mut db, b"key", vec![1, 2, 3]).unwrap();
    let e = stored("https://example.com/", None);
    assert_eq!(ser_insert(&mut db, b"key", &e), Err(LinkError::Corrupt));
    assert_eq!(de_get(&db, b"key"), Ok(Some(e)));
}

#[test]
fn de_get_finds_nothing_under_an_unused_key() {
    let db = temporary_db();
    assert_eq!(de_get(&db, b"unused"), Ok(None));
}

#[test]
fn de_get_reads_back_what_ser_insert_stored() {
    let mut db = temporary_db();
    let limited = stored("https://example.com/a?b=c#d", Some(0));
    let unlimited = stored("https://example.com/", None);
    ser_insert(&mut db, b"l", &limited).unwrap();
    ser_insert(&mut db, b"u", &unlimited).unwrap();
    assert_eq!(de_get(&db, b"l"), Ok(Some(limited)));
    assert_eq!(de_get(&db, b"u"), Ok(Some(unlimited)));
}

#[test]
fn de_get_reports_a_corrupt_record() {
    let mut db = temporary_db();
    insert(&mut db, b"bad", vec![0xde, 0xad]).unwrap();
    assert_eq!(de_get(&db, b"bad"), Err(LinkError::Corrupt));
    let no_url = serialize(&stored("no url here", None));
    insert(&mut db, b"text", no_url).unwrap();
    assert_eq!(de_get(&db, b"text"), Err(LinkError::Corrupt));
}

#[test]
fn decode_found_of_nothing_is_nothing() {
    assert_eq!(decode_found(None), Ok(None));
}

#[test]
fn decode_found_decodes_a_record() {
    let e = stored("https://example.com/", Some(9));
    assert_eq!(decode_found(Some(serialize(&e))), Ok(Some(e)));
    assert_eq!(decode_found(Some(vec![])), Err(LinkError::Corrupt));
}

#[test]
fn data_dir_falls_back_to_db() {
    assert_eq!(data_dir_or_default(None), "db");
    assert_eq!(data_dir_or_default(Some("/var/lib/links".to_string())), "/var/lib/links");
    assert_eq!(data_dir_or_default(Some(String::new())), "");
}

#[test]
fn project_data_dir_is_named() {
    assert!(!get_project_data_dir().is_empty());
}

#[test]
fn project_directories_are_not_empty_paths() {
    if let Some(paths) = project_dirs() {
        assert!(!paths.data_dir.is_empty());
        assert!(!paths.data_local_dir.is_empty());
    }
}

#[test]
fn new_entry_is_stamped_twice_in_order() {
    let first = ShortenEntry::new(ShortenReq::parse("https://example.com/", None, None).unwrap());
    let second = ShortenEntry::new(ShortenReq::parse("https://example.com/", None, None).unwrap());
    assert!(first.created.nanos < 1_000_000_000);
    assert!(second.created.secs >= first.created.secs - 1);
}

#[test]
fn project_data_dir_is_the_one_of_the_platform() {
    match project_dirs() {
        Some(paths) => {
            assert_eq!(get_project_data_dir(), paths.data_dir);
            assert!(paths.data_dir.contains("youarel"));
            assert!(paths.data_local_dir.contains("youarel"));
        }
        None => assert_eq!(get_project_data_dir(), "db"),
    }
}

#[test]
fn requests_made_by_parse_are_canonical() {
    for text in ["https://example.com", "HTTP://EXAMPLE.COM/a b", "ftp://host/%7Euser"] {
        let req = ShortenReq::parse(text, None, None).unwrap();
        let made = ShortenEntry::created_at(req, Timestamp { secs: 0, nanos: 0 });
        assert!(made.is_canonical());
    }
}

#[test]
fn only_a_missing_link_is_answered_with_404() {
    assert_eq!(LinkError::NotFound.status(), 404);
    for kind in [
        LinkError::StorageIO,
        LinkError::Corrupt,
        LinkError::IdentityIO,
        LinkError::IdentityGeneration,
    ] {
        assert_eq!(kind.status(), 500);
    }
}

#[test]
fn failures_other_than_a_missing_link_are_not_described() {
    assert_eq!(LinkError::NotFound.message(), "Shortened URL not found");
    for kind in [
        LinkError::StorageIO,
        LinkError::Corrupt,
        LinkError::IdentityIO,
        LinkError::IdentityGeneration,
    ] {
        assert_eq!(kind.message(), "Internal server error");
    }
}

#[test]
fn database_dir_is_the_data_directory_of_the_project() {
    let paths = ProjectPaths {
        data_dir: "/home/alice/.local/share/youarel".to_string(),
        data_local_dir: "/somewhere/else".to_string(),
    };
    assert_eq!(database_dir(Some(paths)), "/home/alice/.local/share/youarel");
    assert_eq!(database_dir(None), "db");
}

#[test]
fn project_data_dir_is_the_database_dir_of_the_platform() {
    assert_eq!(get_project_data_dir(), database_dir(project_dirs()));
}
