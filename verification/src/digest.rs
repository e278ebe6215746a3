//! The digest of a block's content: how the content is laid out as text, and
//! the outside functions that serialise, hash and encode it.

use sha2::Digest;
use vstd::prelude::*;
use vstd::string::*;
use vstd::utf8::encode_utf8;

use crate::decimal::{decimal, i64_to_decimal, u64_to_decimal};

verus! {

/// Number of bytes in a SHA-256 hash.
pub const HASH_BYTES: usize = 32;

/// Number of characters in the hexadecimal text of a SHA-256 hash.
pub const DIGEST_HEX_LEN: usize = 64;

/// The compact JSON text that `serde_json` writes for an array of strings.
pub uninterp spec fn json_array_text(items: Seq<Seq<char>>) -> Seq<char>;

/// The SHA-256 hash of a byte sequence, as the `sha2` crate computes it.
pub uninterp spec fn sha256(data: Seq<u8>) -> Seq<u8>;

/// The character of a hexadecimal digit, with lower-case letters.
pub open spec fn hex_digit(v: int) -> char
    recommends
        0 <= v < 16,
{
    seq!['0', '1', '2', '3', '4', '5', '6', '7', '8', '9', 'a', 'b', 'c', 'd', 'e', 'f'][v]
}

/// Lower-case hexadecimal text of a byte sequence: two digits for each byte,
/// the high half first.
pub open spec fn hex_lower(data: Seq<u8>) -> Seq<char> {
    Seq::new(
        2 * data.len(),
        |i: int|
            if i % 2 == 0 {
                hex_digit(data[i / 2] as int / 16)
            } else {
                hex_digit(data[i / 2] as int % 16)
            },
    )
}

/// Whether a character is a decimal digit or one of the letters `a` to `f`.
pub open spec fn is_hex_digit(c: char) -> bool {
    ('0' <= c <= '9') || ('a' <= c <= 'f')
}

/// Whether a text holds lower-case hexadecimal digits and nothing else.
pub open spec fn is_lower_hex(text: Seq<char>) -> bool {
    forall|i: int| 0 <= i < text.len() ==> is_hex_digit(#[trigger] text[i])
}

/// The hexadecimal text of a byte sequence is twice as long as the sequence
/// and holds lower-case hexadecimal digits alone.
pub proof fn lemma_hex_lower_shape(data: Seq<u8>)
    ensures
        hex_lower(data).len() == 2 * data.len(),
        is_lower_hex(hex_lower(data)),
{
}

/// The text that is hashed for a block: the decimal timestamp, the JSON
/// array of the payloads, the previous hash, and the decimal nonce, in this
/// order and with nothing between them.
pub open spec fn content_text(
    timestamp: int,
    payloads: Seq<Seq<char>>,
    previous_hash: Seq<char>,
    nonce: nat,
) -> Seq<char> {
    decimal(timestamp) + json_array_text(payloads) + previous_hash + decimal(nonce as int)
}

/// The digest of a text: the lower-case hexadecimal form of the SHA-256 hash
/// of its UTF-8 encoding.
pub open spec fn text_digest(content: Seq<char>) -> Seq<char> {
    hex_lower(sha256(encode_utf8(content)))
}

/// Calls `serde_json::to_string` on the payloads.
///
/// Trusted: the result is the text named by [`json_array_text`], which
/// depends on the characters of the strings alone. `serde_json` documents two
/// causes of failure, a `Serialize` impl that fails and a map with a key that
/// is no string; neither can arise for a vector of strings written to memory,
/// so the call returns `Ok`.
#[verifier::external_body]
pub(crate) fn json_array(items: &Vec<String>) -> (text: String)
    ensures
        text@ == json_array_text(items.deep_view()),
{
    serde_json::to_string(items).unwrap()
}

/// Calls `sha2::Sha256::digest` on the bytes.
///
/// Trusted: the result is the hash named by [`sha256`], and it has the 32
/// bytes of SHA-256's output size.
#[verifier::external_body]
pub(crate) fn sha256_of(data: &[u8]) -> (hash: Vec<u8>)
    ensures
        hash@ == sha256(data@),
        hash@.len() == HASH_BYTES,
{
    sha2::Sha256::digest(data).to_vec()
}

/// Calls `hex::encode` on the bytes.
///
/// Trusted: the result holds two lower-case hexadecimal digits for each byte
/// of the input, in the order of the bytes.
#[verifier::external_body]
pub(crate) fn hex_encode(data: &[u8]) -> (text: String)
    ensures
        text@ == hex_lower(data@),
{
    hex::encode(data)
}

/// Lays out the text that is hashed for a block, given the JSON text of its
/// payloads.
pub fn block_content(timestamp: i64, payloads_json: &str, previous_hash: &str, nonce: u64) -> (content:
    String)
    ensures
        content@ == decimal(timestamp as int) + payloads_json@ + previous_hash@ + decimal(
            nonce as int,
        ),
{
    let mut content = i64_to_decimal(timestamp);
    content.append(payloads_json);
    content.append(previous_hash);
    let nonce_text = u64_to_decimal(nonce);
    content.append(nonce_text.as_str());
    content
}

/// The digest of a text, as 64 lower-case hexadecimal characters.
pub fn digest_of_text(content: &str) -> (digest: String)
    ensures
        digest@ == text_digest(content@),
        digest@.len() == DIGEST_HEX_LEN,
        is_lower_hex(digest@),
{
    let hash = sha256_of(content.as_bytes());
    proof {
        lemma_hex_lower_shape(hash@);
    }
    hex_encode(hash.as_slice())
}

} // verus!
