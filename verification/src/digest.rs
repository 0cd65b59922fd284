//! SHA-256 digests and their lowercase hexadecimal text.

use vstd::prelude::*;
use vstd::utf8::encode_utf8;
use crate::json::hex_char;
use crate::text::push_char;
use sha2::Digest;

verus! {

/// The SHA-256 digest of a byte string, as computed by the `sha2` crate.
pub uninterp spec fn sha256(data: Seq<u8>) -> Seq<u8>;

/// Wraps `sha2::Sha256::digest`: the 32-byte SHA-256 digest of `data`.
#[verifier::external_body]
pub(crate) fn sha256_digest(data: &[u8]) -> (r: Vec<u8>)
    ensures
        r@ == sha256(data@),
        r@.len() == 32,
{
    sha2::Sha256::digest(data).to_vec()
}

/// Two lowercase hexadecimal digits per byte.
pub open spec fn hex_text(bytes: Seq<u8>) -> Seq<char>
    decreases bytes.len(),
{
    if bytes.len() == 0 {
        Seq::empty()
    } else {
        hex_text(bytes.drop_last()) + seq![
            hex_char((bytes.last() / 16) as nat),
            hex_char((bytes.last() % 16) as nat),
        ]
    }
}

/// The lowercase hexadecimal text of a SHA-256 digest of a string's UTF-8 bytes.
pub open spec fn digest_text_spec(value: Seq<char>) -> Seq<char> {
    hex_text(sha256(encode_utf8(value)))
}

/// The first 24 characters of `digest_text_spec`.
pub open spec fn digest_prefix_spec(value: Seq<char>) -> Seq<char> {
    digest_text_spec(value).take(24)
}

/// The length of the hexadecimal text.
pub proof fn lemma_hex_text_len(bytes: Seq<u8>)
    ensures
        hex_text(bytes).len() == 2 * bytes.len(),
    decreases bytes.len(),
{
    if bytes.len() > 0 {
        lemma_hex_text_len(bytes.drop_last());
    }
}

/// Lowercase hexadecimal text of bytes.
pub fn hex_lower(bytes: &[u8]) -> (r: String)
    ensures
        r@ == hex_text(bytes@),
{
    let mut out = String::new();
    let mut i: usize = 0;
    while i < bytes.len()
        invariant
            i <= bytes@.len(),
            out@ == hex_text(bytes@.take(i as int)),
        decreases bytes@.len() - i,
    {
        let b = bytes[i];
        push_char(&mut out, crate::json::hex_digit((b / 16) as u32));
        push_char(&mut out, crate::json::hex_digit((b % 16) as u32));
        assert(bytes@.take(i + 1).drop_last() =~= bytes@.take(i as int));
        assert(out@ =~= hex_text(bytes@.take(i + 1)));
        i = i + 1;
    }
    assert(bytes@.take(bytes@.len() as int) =~= bytes@);
    out
}

/// The hexadecimal SHA-256 digest of a string's UTF-8 bytes.
pub fn digest_text(value: &str) -> (r: String)
    ensures
        r@ == digest_text_spec(value@),
        r@.len() == 64,
{
    let digest = sha256_digest(value.as_bytes());
    proof {
        lemma_hex_text_len(digest@);
    }
    hex_lower(digest.as_slice())
}

/// The first 24 hexadecimal characters of a string's SHA-256 digest.
pub fn digest_prefix(value: &str) -> (r: String)
    ensures
        r@ == digest_prefix_spec(value@),
        r@.len() == 24,
{
    let digest = sha256_digest(value.as_bytes());
    let short = vstd::slice::slice_subrange(digest.as_slice(), 0, 12);
    let r = hex_lower(short);
    proof {
        let full = sha256(encode_utf8(value@));
        lemma_hex_prefix(full, 12);
        lemma_hex_text_len(short@);
        assert(full.subrange(0, 12) =~= full.take(12));
    }
    r
}

/// The text of a prefix of the bytes is the matching prefix of the text.
pub proof fn lemma_hex_prefix(bytes: Seq<u8>, n: int)
    requires
        0 <= n <= bytes.len(),
    ensures
        hex_text(bytes.take(n)) == hex_text(bytes).take(2 * n),
    decreases bytes.len(),
{
    lemma_hex_text_len(bytes);
    lemma_hex_text_len(bytes.take(n));
    if n == bytes.len() {
        assert(bytes.take(n) =~= bytes);
        assert(hex_text(bytes).take(2 * n) =~= hex_text(bytes));
    } else {
        lemma_hex_prefix(bytes.drop_last(), n);
        assert(bytes.drop_last().take(n) =~= bytes.take(n));
        lemma_hex_text_len(bytes.drop_last());
        assert(hex_text(bytes).take(2 * n) =~= hex_text(bytes.drop_last()).take(2 * n));
    }
}

} // verus!
