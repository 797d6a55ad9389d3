//! Content hashes used to recognise clipboard items: SHA-256, written as
//! lower-case hex.
use vstd::prelude::*;
use crate::digits::{hex_bytes, hex_encode};

verus! {

/// The SHA-256 digest of `data`.
pub uninterp spec fn sha256(data: Seq<u8>) -> Seq<u8>;

/// Calls `sha2::Sha256::digest`. Trusted: the result is the SHA-256 digest of
/// `data` (named, not stated) and, as for every SHA-256 digest, 32 bytes long.
#[verifier::external_body]
fn sha256_digest(data: &[u8]) -> (digest: Vec<u8>)
    ensures
        digest@ == sha256(data@),
        digest@.len() == 32,
{
    <sha2::Sha256 as sha2::Digest>::digest(data).to_vec()
}

/// The hash under which a clipboard item of raw `bytes` (text or image) is
/// de-duplicated: its SHA-256 digest in lower-case hex.
pub fn clipboard_bytes_hash(bytes: &[u8]) -> (hash: String)
    ensures
        hash@ == hex_bytes(sha256(bytes@)),
        hash@.len() == 64,
{
    let digest = sha256_digest(bytes);
    let chars = hex_encode(digest.as_slice());
    proof {
        lemma_hex_bytes_len(digest@);
    }
    crate::text::string_from(chars.as_slice())
}

/// The hash of a text item: that of its UTF-8 bytes.
pub fn clipboard_text_hash(value: &str) -> (hash: String)
    ensures
        hash@ == hex_bytes(sha256(vstd::utf8::encode_utf8(value@))),
        hash@.len() == 64,
{
    clipboard_bytes_hash(value.as_bytes())
}

/// Two hex digits per byte.
pub proof fn lemma_hex_bytes_len(bytes: Seq<u8>)
    ensures
        hex_bytes(bytes).len() == 2 * bytes.len(),
    decreases bytes.len(),
{
    if bytes.len() > 0 {
        lemma_hex_bytes_len(bytes.drop_last());
    }
}

} // verus!
