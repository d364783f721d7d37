//! Key derivation: BLAKE3 over the input text, URL-safe unpadded Base64 of the
//! digest, cut to the wanted number of characters.

use vstd::prelude::*;
use vstd::string::*;
use vstd::utf8::*;

verus! {

/// Number of characters of a key where the caller names none.
pub const DEFAULT_LENGTH: usize = 8;

/// Number of characters in the Base64 text of a whole digest.
pub const FULL_LENGTH: usize = 43;

/// The BLAKE3 digest of `input`, in the default hash mode.
pub uninterp spec fn blake3_digest(input: Seq<u8>) -> Seq<u8>;

/// The 64 symbols of the URL-safe Base64 alphabet, in the order of their values.
pub open spec fn url_safe_alphabet() -> Seq<char> {
    "ABCDEFGHIJKLMNOPQRSTUVWXYZabcdefghijklmnopqrstuvwxyz0123456789-_"@
}

/// The value of the `i`-th group of six bits of `bytes`, most significant bit
/// first. Where the bytes end inside a group, the missing bits are zero.
pub open spec fn sextet(bytes: Seq<u8>, i: int) -> int {
    let at = 3 * (i / 4);
    let b0 = bytes[at] as int;
    let b1 = if at + 1 < bytes.len() { bytes[at + 1] as int } else { 0 };
    let b2 = if at + 2 < bytes.len() { bytes[at + 2] as int } else { 0 };
    if i % 4 == 0 {
        b0 / 4
    } else if i % 4 == 1 {
        (b0 % 4) * 16 + b1 / 16
    } else if i % 4 == 2 {
        (b1 % 16) * 4 + b2 / 64
    } else {
        b2 % 64
    }
}

/// Number of symbols that stand for `n` bytes when no padding is written.
pub open spec fn base64_len(n: int) -> int {
    (4 * n + 2) / 3
}

/// The URL-safe Base64 text of `bytes`, without padding.
pub open spec fn base64_url(bytes: Seq<u8>) -> Seq<char> {
    Seq::new(base64_len(bytes.len() as int) as nat, |i: int| url_safe_alphabet()[sextet(bytes, i)])
}

/// The length that a caller asks for: the one it names, or the default.
pub open spec fn wanted_length(length: Option<usize>) -> int {
    match length {
        Some(n) => n as int,
        None => DEFAULT_LENGTH as int,
    }
}

/// The first `length` characters of the Base64 text of `digest`, or all of
/// them where there are no more than `length`.
pub open spec fn short_key(digest: Seq<u8>, length: int) -> Seq<char> {
    let text = base64_url(digest);
    if 0 <= length < text.len() {
        text.take(length)
    } else {
        text
    }
}

/// Every group of six bits that the text has a symbol for is a value below 64.
pub proof fn lemma_sextet_in_alphabet(bytes: Seq<u8>, i: int)
    requires
        0 <= i < base64_len(bytes.len() as int),
    ensures
        0 <= sextet(bytes, i) < 64,
        3 * (i / 4) < bytes.len(),
{
}

/// Base64 text is ASCII.
pub proof fn lemma_base64_url_is_ascii(bytes: Seq<u8>)
    ensures
        is_ascii_chars(base64_url(bytes)),
        base64_url(bytes).len() == base64_len(bytes.len() as int),
{
    reveal_strlit("ABCDEFGHIJKLMNOPQRSTUVWXYZabcdefghijklmnopqrstuvwxyz0123456789-_");
    let text = base64_url(bytes);
    assert forall|i: int| 0 <= i < text.len() implies '\0' <= #[trigger] text[i] <= '\u{7f}' by {
        lemma_sextet_in_alphabet(bytes, i);
        let v = sextet(bytes, i);
        assert(is_ascii_chars(url_safe_alphabet()));
        assert(text[i] == url_safe_alphabet()[v]);
    }
}

/// Calls `Engine::encode` of `base64` on its `URL_SAFE_NO_PAD` engine. The
/// contract says that the text is the Base64 of RFC 4648 in the URL-safe
/// alphabet with no padding; the length bound keeps the buffer that the
/// engine allocates within what a vector can hold.
#[verifier::external_body]
fn base64_encode(bytes: &[u8]) -> (text: String)
    requires
        base64_len(bytes@.len() as int) <= isize::MAX,
    ensures
        text@ == base64_url(bytes@),
{
    base64::Engine::encode(&base64::engine::general_purpose::URL_SAFE_NO_PAD, bytes)
}

/// Hashes with `blake3::Hasher`: `new`, one `update` with the whole input,
/// `finalize`. The contract names the digest; it states nothing of its bytes.
#[verifier::external_body]
fn blake3_hash(input: &[u8]) -> (digest: [u8; 32])
    ensures
        digest@ == blake3_digest(input@),
{
    let mut hasher = blake3::Hasher::new();
    hasher.update(input);
    *hasher.finalize().as_bytes()
}

/// The key for a digest: its Base64 text, cut to `length` characters.
pub fn shorten_digest(digest: &[u8], length: usize) -> (key: String)
    requires
        base64_len(digest@.len() as int) <= isize::MAX,
    ensures
        key@ == short_key(digest@, length as int),
{
    let text = base64_encode(digest);
    proof {
        lemma_base64_url_is_ascii(digest@);
    }
    let full = text.as_str();
    proof {
        is_ascii_chars_encode_utf8(full@);
    }
    if length < full.len() {
        String::from_str(full.substring_ascii(0, length))
    } else {
        text
    }
}

/// The key of `input` with `length` characters.
pub open spec fn encoded(input: Seq<char>, length: int) -> Seq<char> {
    short_key(blake3_digest(encode_utf8(input)), length)
}

/// A key has as many characters as were asked for, unless the whole text is
/// shorter.
pub proof fn lemma_short_key_len(digest: Seq<u8>, length: int)
    requires
        0 <= length,
    ensures
        short_key(digest, length).len() == if length < base64_len(digest.len() as int) {
            length
        } else {
            base64_len(digest.len() as int)
        },
{
}

/// Keys that collide stay collided when they are made shorter: two inputs
/// with one key of `longer` characters have one key of every smaller length.
pub proof fn law_collision_survives_shortening(
    first: Seq<char>,
    second: Seq<char>,
    shorter: int,
    longer: int,
)
    requires
        0 <= shorter <= longer,
        encoded(first, longer) == encoded(second, longer),
    ensures
        encoded(first, shorter) == encoded(second, shorter),
{
    let a = base64_url(blake3_digest(encode_utf8(first)));
    let b = base64_url(blake3_digest(encode_utf8(second)));
    let ka = short_key(blake3_digest(encode_utf8(first)), longer);
    let kb = short_key(blake3_digest(encode_utf8(second)), longer);
    assert(ka.len() == kb.len());
    if shorter < ka.len() {
        assert(a.take(shorter) =~= ka.take(shorter));
        assert(b.take(shorter) =~= kb.take(shorter));
    } else {
        assert(encoded(first, shorter) =~= ka);
        assert(encoded(second, shorter) =~= kb);
    }
}

/// Hashes `s` with BLAKE3, writes the digest in URL-safe Base64 without
/// padding, and keeps the first `length` characters of it, eight where no
/// length is given. The text of a whole digest has 43 characters.
pub fn encode(s: &str, length: Option<usize>) -> (key: String)
    ensures
        key@ == encoded(s@, wanted_length(length)),
        key@.len() == if wanted_length(length) < FULL_LENGTH {
            wanted_length(length)
        } else {
            FULL_LENGTH as int
        },
{
    let length = match length {
        Some(n) => n,
        None => DEFAULT_LENGTH,
    };
    let digest = blake3_hash(s.as_bytes());
    proof {
        lemma_short_key_len(digest@, length as int);
    }
    shorten_digest(digest.as_slice(), length)
}

} // verus!
