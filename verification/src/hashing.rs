//! Canonical content hashes: SHA-256 digests rendered as lowercase hex.
use vstd::prelude::*;
use sha2::Digest;
use crate::hexcodec::hex_encode;
use crate::primitives::{is_whitespace, push_char};

verus! {

/// The SHA-256 digest of a byte string, as `sha2::Sha256` computes it.
pub uninterp spec fn sha256_spec(data: Seq<u8>) -> Seq<u8>;

/// `sha2::Sha256::digest`: the 32-byte SHA-256 digest of `data`.
#[verifier::external_body]
fn sha256(data: &[u8]) -> (digest: Vec<u8>)
    ensures
        digest@ == sha256_spec(data@),
        digest@.len() == 32,
{
    sha2::Sha256::digest(data).to_vec()
}

/// Lowercase hex SHA-256 of a byte string.
pub open spec fn sha256_hex_spec(data: Seq<u8>) -> Seq<char> {
    crate::hexcodec::hex_encode_spec(sha256_spec(data))
}

/// Lowercase hex SHA-256 of `data`.
pub fn sha256_hex(data: &[u8]) -> (h: String)
    ensures
        h@ == sha256_hex_spec(data@),
{
    let d = sha256(data);
    hex_encode(d.as_slice())
}

/// Unicode lowercase mapping of a string, as `str::to_lowercase` computes it.
pub uninterp spec fn lowercase_spec(s: Seq<char>) -> Seq<char>;

/// `str::to_lowercase`: the Unicode lowercase form of `s`.
#[verifier::external_body]
fn to_lowercase(s: &str) -> (l: String)
    ensures
        l@ == lowercase_spec(s@),
{
    s.to_lowercase()
}

/// Canonical form of a question before hashing: whitespace removed, then
/// lowercased.
pub open spec fn normalized_question(q: Seq<char>) -> Seq<char> {
    lowercase_spec(q.filter(|c: char| !crate::primitives::char_is_whitespace(c)))
}

/// How a question's canonical form grows, character by character: the
/// empty question lowercases the empty text; a whitespace character adds
/// nothing; any other character (digits and punctuation included) is kept,
/// appended after what came before, and the whole is lowercased.
pub proof fn lemma_question_normalization(q: Seq<char>, c: char)
    ensures
        normalized_question(Seq::empty()) == lowercase_spec(Seq::empty()),
        crate::primitives::char_is_whitespace(c) ==> normalized_question(q.push(c)) == normalized_question(q),
        !crate::primitives::char_is_whitespace(c) ==> exists|s: Seq<char>|
            normalized_question(q) == lowercase_spec(s) && #[trigger] normalized_question(q.push(c)) == lowercase_spec(s.push(c)),
{
    assert(Seq::<char>::empty().filter(|c: char| !crate::primitives::char_is_whitespace(c)) =~= Seq::<char>::empty());
    q.lemma_filter_push(c, |c: char| !crate::primitives::char_is_whitespace(c));
    let s = q.filter(|c: char| !crate::primitives::char_is_whitespace(c));
    if !crate::primitives::char_is_whitespace(c) {
        assert(normalized_question(q.push(c)) == lowercase_spec(s.push(c)));
    }
}

/// Compute the exact-hit hash for a question (normalized, lowercased).
pub fn question_hash(question: &str) -> (h: String)
    ensures
        h@ == sha256_hex_spec(vstd::utf8::encode_utf8(normalized_question(question@))),
{
    let n = question.unicode_len();
    let mut squeezed = String::new();
    let mut i: usize = 0;
    while i < n
        invariant
            n == question@.len(),
            i <= n,
            squeezed@ == question@.take(i as int).filter(|c: char| !crate::primitives::char_is_whitespace(c)),
        decreases n - i,
    {
        let c = question.get_char(i);
        proof {
            assert(question@.take(i + 1) =~= question@.take(i as int).push(c));
            question@.take(i as int).lemma_filter_push(c, |c: char| !crate::primitives::char_is_whitespace(c));
        }
        if !is_whitespace(c) {
            push_char(&mut squeezed, c);
        }
        i = i + 1;
    }
    proof {
        assert(question@.take(n as int) =~= question@);
    }
    let normalized = to_lowercase(squeezed.as_str());
    sha256_hex(normalized.as_str().as_bytes())
}

/// Canonical content hash for a chunk: lowercase hex SHA-256 of its UTF-8
/// text. Clients must use this exact function when computing `source_hashes`
/// so the server's staleness hook can compare against stored chunk hashes.
pub fn chunk_content_hash(content: &str) -> (h: String)
    ensures
        h@ == sha256_hex_spec(vstd::utf8::encode_utf8(content@)),
{
    sha256_hex(content.as_bytes())
}

} // verus!
