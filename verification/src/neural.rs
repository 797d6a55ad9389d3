//! The neural search model's identity and inputs: how an item's text is
//! composed for embedding, and when an on-disk corpus embedding cache may be
//! trusted. Embedding itself (floating point, ONNX runtime) is the caller's.
use vstd::prelude::*;
use crate::digits::hex_bytes;
use crate::digest::sha256;
use crate::emoji::EmojiEntry;
use crate::text::{chars_of, join, join_chars, push_all, strs, trim, trim_chars, char_vecs};

verus! {

/// Length of one embedding vector.
pub const NEURAL_VECTOR_DIM: usize = 384;

/// Identifies the embedding model and text composition behind a cached
/// embedding; bumped whenever either changes so old caches read as stale.
pub const MODEL_VERSION: &'static str = "all-MiniLM-L6-v2-v1";

/// The text embedded for `content` with its seed terms: the content, then the
/// terms separated by spaces, trimmed.
pub open spec fn composed_text(content: Seq<char>, seed_terms: Seq<Seq<char>>) -> Seq<char> {
    if seed_terms.len() == 0 {
        trim(content)
    } else {
        trim(content + " "@ + join(seed_terms, " "@))
    }
}

/// Composes the text to embed from an item's content and seed terms.
pub fn compose_text(content: &str, seed_terms: &Vec<String>) -> (text: String)
    ensures
        text@ == composed_text(content@, strs(seed_terms@)),
{
    let mut all = chars_of(content);
    if seed_terms.len() > 0 {
        all.push(' ');
        let joined = join_chars(&char_vecs(seed_terms), &chars_of(" "));
        crate::text::append_chars(&mut all, &joined);
        proof {
            reveal_strlit(" ");
        }
        assert(all@ == content@ + " "@ + join(strs(seed_terms@), " "@));
    }
    let trimmed = trim_chars(&all);
    crate::text::string_from(trimmed.as_slice())
}

/// The bytes that fingerprint the corpus: per entry, its name then each
/// keyword, each followed by a NUL byte, and a newline closing the entry.
pub open spec fn fingerprint_bytes(entries: Seq<EmojiEntry>) -> Seq<u8>
    decreases entries.len(),
{
    if entries.len() == 0 {
        Seq::empty()
    } else {
        let e = entries.last();
        fingerprint_bytes(entries.drop_last()) + vstd::utf8::encode_utf8(e.name@) + seq![0u8]
            + terminated_bytes(strs(e.keywords@)) + seq![10u8]
    }
}

/// Each string's UTF-8 bytes followed by a NUL byte.
pub open spec fn terminated_bytes(words: Seq<Seq<char>>) -> Seq<u8>
    decreases words.len(),
{
    if words.len() == 0 {
        Seq::empty()
    } else {
        terminated_bytes(words.drop_last()) + vstd::utf8::encode_utf8(words.last()) + seq![0u8]
    }
}

fn push_bytes(out: &mut Vec<u8>, more: &[u8])
    ensures
        final(out)@ == old(out)@ + more@,
{
    let mut i: usize = 0;
    while i < more.len()
        invariant
            i <= more@.len(),
            out@ == old(out)@ + more@.take(i as int),
        decreases more@.len() - i,
    {
        out.push(more[i]);
        assert(more@.take(i + 1) == more@.take(i as int).push(more@[i as int]));
        i = i + 1;
    }
    assert(more@.take(more@.len() as int) == more@);
}

/// Fingerprints the corpus content that feeds the embedder (name and keywords
/// per entry) so a cache built from other content is recognised as stale:
/// the SHA-256 of `fingerprint_bytes`, in lower-case hex.
pub fn corpus_fingerprint(entries: &Vec<EmojiEntry>) -> (fingerprint: String)
    ensures
        fingerprint@ == hex_bytes(sha256(fingerprint_bytes(entries@))),
{
    let mut bytes: Vec<u8> = Vec::new();
    let mut i: usize = 0;
    while i < entries.len()
        invariant
            i <= entries@.len(),
            bytes@ == fingerprint_bytes(entries@.take(i as int)),
        decreases entries@.len() - i,
    {
        let entry = &entries[i];
        assert(entries@.take(i + 1).drop_last() == entries@.take(i as int));
        assert(entries@.take(i + 1).last() == entries@[i as int]);
        let ghost start = bytes@;
        push_bytes(&mut bytes, entry.name.as_str().as_bytes());
        bytes.push(0u8);
        let ghost after_name = bytes@;
        let mut k: usize = 0;
        while k < entry.keywords.len()
            invariant
                k <= entry.keywords@.len(),
                bytes@ == after_name + terminated_bytes(strs(entry.keywords@).take(k as int)),
            decreases entry.keywords@.len() - k,
        {
            let ghost ws = strs(entry.keywords@);
            assert(ws.take(k + 1).drop_last() == ws.take(k as int));
            assert(ws.take(k + 1).last() == entry.keywords@[k as int]@);
            push_bytes(&mut bytes, entry.keywords[k].as_str().as_bytes());
            bytes.push(0u8);
            k = k + 1;
        }
        assert(strs(entry.keywords@).take(entry.keywords@.len() as int) == strs(entry.keywords@));
        bytes.push(10u8);
        i = i + 1;
    }
    assert(entries@.take(entries@.len() as int) == entries@);
    crate::digest::clipboard_bytes_hash(bytes.as_slice())
}

/// Bytes per cached embedding row: `NEURAL_VECTOR_DIM` four-byte floats.
pub const EMBEDDING_ROW_BYTES: usize = 1536;

/// Whether an on-disk corpus embedding cache may be used: its metadata names
/// the current model and corpus fingerprint, and the blob holds exactly one
/// row of `NEURAL_VECTOR_DIM` little-endian `f32`s per corpus entry.
pub fn cached_embeddings_usable(
    model_version: &str,
    cached_fingerprint: &str,
    current_fingerprint: &str,
    blob_len: usize,
    entry_count: usize,
) -> (usable: bool)
    ensures
        usable == (model_version@ == MODEL_VERSION@ && cached_fingerprint@ == current_fingerprint@
            && blob_len as int % EMBEDDING_ROW_BYTES as int == 0 && blob_len as int / EMBEDDING_ROW_BYTES as int == entry_count),
{
    if String::from_str(model_version) != String::from_str(MODEL_VERSION)
        || String::from_str(cached_fingerprint) != String::from_str(current_fingerprint) {
        return false;
    }
    let bytes_per_row: usize = NEURAL_VECTOR_DIM * 4;
    assert(bytes_per_row == EMBEDDING_ROW_BYTES);
    if bytes_per_row == 0 || blob_len % bytes_per_row != 0 {
        return false;
    }
    blob_len / bytes_per_row == entry_count
}

} // verus!
