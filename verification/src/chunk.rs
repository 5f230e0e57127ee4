//! The chunk type, the token estimate, content hashing and chunker settings.

use vstd::prelude::*;
use vstd::string::*;
use sha2::{Digest, Sha256};
use crate::text::{owned, push_char};

verus! {

/// SHA-256 of a byte sequence, as the `sha2` crate computes it.
pub uninterp spec fn sha256(data: Seq<u8>) -> Seq<u8>;

/// `Sha256::digest` from `sha2`: the 32-byte SHA-256 digest of `data`.
#[verifier::external_body]
fn sha256_digest(data: &[u8]) -> (d: Vec<u8>)
    ensures
        d@ == sha256(data@),
        d@.len() == 32,
{
    Sha256::digest(data).to_vec()
}

/// A lowercase hexadecimal digit for `n < 16`.
pub open spec fn hex_digit(n: nat) -> char {
    if n < 10 {
        ((n + 48) as u8) as char
    } else {
        ((n + 87) as u8) as char
    }
}

/// `{b:02x}` for each byte, concatenated.
pub open spec fn hex_lower(bytes: Seq<u8>) -> Seq<char>
    decreases bytes.len(),
{
    if bytes.len() == 0 {
        seq![]
    } else {
        hex_lower(bytes.drop_last()) + seq![
            hex_digit((bytes.last() / 16) as nat),
            hex_digit((bytes.last() % 16) as nat),
        ]
    }
}

fn hex_char(n: u8) -> (c: char)
    requires
        n < 16,
    ensures
        c == hex_digit(n as nat),
{
    if n < 10 {
        ((n + 48) as u8) as char
    } else {
        ((n + 87) as u8) as char
    }
}

/// The hash that identifies a chunk's text: the first 8 bytes of its SHA-256,
/// in lowercase hex (16 characters).
pub open spec fn spec_content_hash(text: Seq<char>) -> Seq<char> {
    hex_lower(sha256(vstd::utf8::encode_utf8(text)).take(8))
}

/// The first `n` bytes of the SHA-256 of `text`'s UTF-8 encoding, in
/// lowercase hex (`2n` characters).
pub fn sha256_digest_of(text: &str, n: usize) -> (h: String)
    requires
        n <= 32,
    ensures
        h@ == hex_lower(sha256(vstd::utf8::encode_utf8(text@)).take(n as int)),
        h@.len() == 2 * n,
{
    let digest = sha256_digest(text.as_bytes());
    let mut s = String::new();
    let mut i: usize = 0;
    while i < n
        invariant
            digest@.len() == 32,
            digest@ == sha256(vstd::utf8::encode_utf8(text@)),
            n <= 32,
            i <= n,
            s@ == hex_lower(digest@.take(i as int)),
            s@.len() == 2 * i,
        decreases n - i,
    {
        let b = digest[i];
        push_char(&mut s, hex_char(b / 16));
        push_char(&mut s, hex_char(b % 16));
        i = i + 1;
        assert(digest@.take(i as int).drop_last() =~= digest@.take(i - 1));
    }
    s
}

/// sha256 of `text`, truncated to the first 16 hex characters (8 bytes).
pub fn content_hash(text: &str) -> (h: String)
    ensures
        h@ == spec_content_hash(text@),
        h@.len() == 16,
{
    sha256_digest_of(text, 8)
}

/// A chunk of source ready to be embedded.
#[derive(Debug, Clone, PartialEq, Eq)]
pub struct Chunk {
    /// Chunk text (context header + body).
    pub text: String,
    /// Chunk level: `file` / `class` / `function` / `block` / `doc`.
    pub level: String,
    /// Symbol name this chunk represents (empty for the file chunk).
    pub symbol_name: String,
    /// Finer-grained symbol kind (`function`/`method`/`class`/…).
    pub symbol_type: String,
    /// 1-based start line.
    pub start_line: u32,
    /// 1-based end line.
    pub end_line: u32,
    /// `# file > class > method` context header (empty for file/class chunks).
    pub context_header: String,
    /// sha256[:16] of `text`.
    pub content_hash: String,
}

impl Chunk {
    /// Construct a chunk, computing its `content_hash` from `text`.
    pub fn new(
        text: String,
        level: &str,
        symbol_name: &str,
        symbol_type: &str,
        start_line: u32,
        end_line: u32,
        context_header: String,
    ) -> (c: Chunk)
        ensures
            c.text@ == text@,
            c.level@ == level@,
            c.symbol_name@ == symbol_name@,
            c.symbol_type@ == symbol_type@,
            c.start_line == start_line,
            c.end_line == end_line,
            c.context_header@ == context_header@,
            c.content_hash@ == spec_content_hash(text@),
    {
        let content_hash = content_hash(text.as_str());
        Chunk {
            text,
            level: owned(level),
            symbol_name: owned(symbol_name),
            symbol_type: owned(symbol_type),
            start_line,
            end_line,
            context_header,
            content_hash,
        }
    }
}

/// Configuration for the semantic chunker.
#[derive(Debug, Clone, Copy)]
pub struct ChunkConfig {
    /// Target upper bound (tokens) before a function is split into blocks.
    pub max_chunk_tokens: usize,
    /// Below this, symbols are grouped together into one chunk.
    pub min_chunk_tokens: usize,
    /// Functions above this (tokens) are split into block-level chunks.
    pub large_function_threshold: usize,
}

impl Default for ChunkConfig {
    fn default() -> (c: Self)
        ensures
            c.max_chunk_tokens == 512,
            c.min_chunk_tokens == 64,
            c.large_function_threshold == 1024,
    {
        ChunkConfig { max_chunk_tokens: 512, min_chunk_tokens: 64, large_function_threshold: 1024 }
    }
}

/// Rough token estimate: about four characters per token.
pub open spec fn spec_estimate_tokens(text: Seq<char>) -> nat {
    text.len() / 4
}

/// Rough token estimate: ~4 characters per token (`chars().count() / 4`).
pub fn estimate_tokens(text: &str) -> (n: usize)
    ensures
        n == spec_estimate_tokens(text@),
{
    text.unicode_len() / 4
}

} // verus!
