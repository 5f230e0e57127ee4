//! Shared domain types for vectors and search.

use vstd::prelude::*;

verus! {

/// Metadata carried alongside every vector: one-to-one with the columns of the
/// `vectors` table (minus `id`, `text`, `vector`).
#[derive(Debug, Clone, Default, PartialEq)]
pub struct VectorMetadata {
    /// Short repo name (basename).
    pub repo: String,
    /// Git branch.
    pub branch: String,
    /// Commit the record was indexed at.
    pub commit: String,
    /// Source file path (repo-relative).
    pub file: String,
    /// Symbol name, or memory title for memory rows.
    pub symbol: String,
    /// `function`/`method`/`class`/… or the memory type.
    pub symbol_type: String,
    /// Programming/markup language.
    pub language: String,
    /// 1-based start line.
    pub start_line: i32,
    /// 1-based end line.
    pub end_line: i32,
    /// `file`/`class`/`function`/`block`/`memory`/`memory_chunk`.
    pub chunk_level: String,
    /// sha256[:16] of the chunk text; drives incremental skip and sync.
    pub content_hash: String,
    /// Tombstone marker.
    pub is_deletion: bool,
    /// Memory type (insight/decision/note/bug/architecture/pattern/discovery).
    pub memory_type: String,
    /// Memory scope (`shared`/`local`).
    pub memory_scope: String,
    /// Comma-separated memory tags.
    pub memory_tags: String,
    /// ISO-8601 indexing timestamp.
    pub indexed_at: String,
}

/// Equality filters applied to a vector search (all `Some` fields must match).
#[derive(Debug, Clone, Default)]
pub struct SearchFilter {
    /// Restrict to a repo.
    pub repo: Option<String>,
    /// Restrict to a branch.
    pub branch: Option<String>,
    /// Restrict to one or more languages.
    pub languages: Vec<String>,
    /// Restrict to a chunk level.
    pub chunk_level: Option<String>,
    /// Restrict to one or more chunk levels (memory recall uses `memory` and
    /// `memory_chunk`).
    pub chunk_levels: Vec<String>,
    /// Restrict to a memory type.
    pub memory_type: Option<String>,
    /// Exclude tombstoned rows when `true`.
    pub exclude_deletions: bool,
}

} // verus!
