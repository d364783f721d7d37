use youarel::encoding::{encode, shorten_digest, DEFAULT_LENGTH, FULL_LENGTH};

const URL: &str = "https://example.com/a-very-long-path";

fn is_url_safe(c: char) -> bool {
    c.is_ascii_alphanumeric() || c == '-' || c == '_'
}

#[test]
fn base64_of_rfc_4648_vectors() {
    assert_eq!(shorten_digest(b"", 100), "");
    assert_eq!(shorten_digest(b"f", 100), "Zg");
    assert_eq!(shorten_digest(b"fo", 100), "Zm8");
    assert_eq!(shorten_digest(b"foo", 100), "Zm9v");
    assert_eq!(shorten_digest(b"foob", 100), "Zm9vYg");
    assert_eq!(shorten_digest(b"fooba", 100), "Zm9vYmE");
    assert_eq!(shorten_digest(b"foobar", 100), "Zm9vYmFy");
}

#[test]
fn base64_uses_the_url_safe_symbols() {
    assert_eq!(shorten_digest(&[0xfb, 0xff], 100), "-_8");
}

#[test]
fn base64_of_thirty_two_bytes_has_43_symbols() {
    let bytes: Vec<u8> = (0u8..32).collect();
    let text = shorten_digest(&bytes, 100);
    assert_eq!(text, "AAECAwQFBgcICQoLDA0ODxAREhMUFRYXGBkaGxwdHh8");
    assert_eq!(text.len(), FULL_LENGTH);
}

#[test]
fn shorten_digest_cuts_to_the_length() {
    assert_eq!(shorten_digest(b"foobar", 0), "");
    assert_eq!(shorten_digest(b"foobar", 1), "Z");
    assert_eq!(shorten_digest(b"foobar", 5), "Zm9vY");
    assert_eq!(shorten_digest(b"foobar", 7), "Zm9vYmF");
    assert_eq!(shorten_digest(b"foobar", 8), "Zm9vYmFy");
    assert_eq!(shorten_digest(b"foobar", 9), "Zm9vYmFy");
    assert_eq!(shorten_digest(b"foobar", usize::MAX), "Zm9vYmFy");
}

#[test]
fn encode_hashes_with_blake3() {
    // The BLAKE3 digest of the empty input is
    // af1349b9f5f9a1a6a0404dea36dcc9499bcb25c9adc112b7cc9a93cae41f3262.
    assert_eq!(encode("", Some(43)), "rxNJufX5oaagQE3qNtzJSZvLJcmtwRK3zJqTyuQfMmI");
    assert_eq!(encode("", None), "rxNJufX5");
}

#[test]
fn encode_example_is_stable() {
    let first = encode(URL, Some(8));
    let second = encode(URL, Some(8));
    assert_eq!(first, second);
    assert_eq!(first.chars().count(), 8);
    assert_eq!(first, "x9OzhLG6");
}

#[test]
fn encode_defaults_to_eight_characters() {
    assert_eq!(DEFAULT_LENGTH, 8);
    assert_eq!(encode(URL, None), encode(URL, Some(8)));
    assert_eq!(encode(URL, None).len(), 8);
}

#[test]
fn encode_length_is_the_smaller_of_length_and_43() {
    for length in [0usize, 1, 2, 7, 8, 9, 42, 43, 44, 64, 1000, usize::MAX] {
        let key = encode(URL, Some(length));
        assert_eq!(key.chars().count(), length.min(43));
    }
}

#[test]
fn encode_keys_are_prefixes_of_the_full_text() {
    let full = encode(URL, Some(43));
    for length in 0..=43usize {
        assert_eq!(encode(URL, Some(length)), full[..length]);
    }
    assert_eq!(encode(URL, Some(100)), full);
}

#[test]
fn encode_keys_are_url_safe() {
    for input in ["", "a", URL, "https://windows11.zip", "\u{1F600} not a URL at all"] {
        assert!(encode(input, Some(43)).chars().all(is_url_safe));
    }
}

#[test]
fn encode_tells_inputs_apart() {
    assert_ne!(encode("https://example.com/a", Some(43)), encode("https://example.com/b", Some(43)));
    assert_ne!(encode("", Some(43)), encode(" ", Some(43)));
}

#[test]
fn encode_with_length_zero_is_empty() {
    assert_eq!(encode(URL, Some(0)), "");
    assert_eq!(encode("anything else", Some(0)), "");
}

#[test]
fn util_encode_agrees_with_encode() {
    for length in [0usize, 5, 8, 10, 43, 50] {
        assert_eq!(youarel::util::encode(URL, length), encode(URL, Some(length)));
    }
}
