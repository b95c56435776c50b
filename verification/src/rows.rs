//! Row and input types of the persistent store.
use vstd::prelude::*;

verus! {

/// Project (buffer) row.
#[derive(Debug, Clone)]
pub struct ProjectRow {
    pub id: i64,
    pub uuid: Option<String>,
    pub name: String,
    pub path: String,
    pub total_chunks: i64,
    pub total_files: i64,
    pub created_at: i64,
}

/// Session row.
#[derive(Debug, Clone)]
pub struct SessionRow {
    pub id: String,
    pub project: String,
    pub title: String,
    pub created_at: Option<i64>,
    pub updated_at: Option<i64>,
}

/// One audit-log entry.
#[derive(Debug, Clone)]
pub struct AuditEntry {
    /// Numeric rowid.
    pub id: i64,
    /// Project the action targeted (may be empty for global actions).
    pub project: String,
    /// Authenticated username that performed the action.
    pub username: String,
    /// Action verb (e.g. `index`, `persist_exploration`, `complete_rlm_job`).
    pub action: String,
    /// Optional target identifier (e.g. node id, buffer id, subject key).
    pub target: Option<String>,
    /// Optional human-readable detail.
    pub detail: Option<String>,
    /// Unix epoch seconds the row was written.
    pub created_at: i64,
}

/// An indexed buffer (project).
#[derive(Debug, Clone)]
pub struct Buffer {
    pub id: i64,
    pub uuid: Option<String>,
    pub name: String,
    pub path: String,
    pub total_chunks: i64,
    pub total_files: i64,
    pub embedding_model: Option<String>,
    pub embedding_dims: Option<i64>,
    pub last_indexed_at: Option<i64>,
    pub created_at: i64,
}

/// Input for creating a buffer.
#[derive(Debug)]
pub struct NewBuffer {
    pub name: String,
    pub path: String,
}

/// A stored chunk row.
#[derive(Debug, Clone)]
pub struct Chunk {
    pub id: i64,
    pub buffer_id: i64,
    pub file_path: String,
    pub offset_start: i64,
    pub offset_end: i64,
    pub line_start: i64,
    pub line_end: i64,
    pub hash: Vec<u8>,
    pub language: Option<String>,
    pub chunk_type: Option<String>,
    pub token_count: Option<i64>,
    pub status: String,
    pub created_at: i64,
    pub last_accessed_at: i64,
    /// Project epoch at write time (drift / time-travel).
    pub epoch: i64,
    /// Agent username that produced the chunk (audit/provenance).
    pub created_by: Option<String>,
    /// LLM model that produced the chunk (metadata).
    pub model: Option<String>,
    /// Revision counter; starts at 1, bumped on supersede.
    pub version: i64,
    /// Whether this is the live revision.
    pub is_active: bool,
    /// Rowid of the newer revision that superseded this one (`is_active = 0`
    /// rows only); `None` for the live row.
    pub superseded_by: Option<i64>,
}

/// Input for inserting a chunk.
#[derive(Debug)]
pub struct NewChunk {
    pub buffer_id: i64,
    pub file_path: String,
    pub offset_start: i64,
    pub offset_end: i64,
    pub line_start: i64,
    pub line_end: i64,
    pub hash: Vec<u8>,
    pub language: Option<String>,
    pub chunk_type: Option<String>,
    pub token_count: Option<i64>,
}

/// Connection mode for the storage backend.
#[derive(Debug, Clone, Copy, PartialEq, Eq, Structural)]
pub enum StorageMode {
    /// Single connection mode (CLI). Uses exclusive locking.
    Single,
    /// Pooled connection mode (Server). Uses WAL with concurrent readers.
    Pooled,
}

/// Pool statistics.
#[derive(Debug, Clone)]
pub struct PoolStats {
    pub max_size: u32,
    pub min_idle: u32,
    pub idle_connections: u32,
    pub connections: u32,
}

/// Query history entry.
#[derive(Debug, Clone)]
pub struct HistoryEntry {
    pub id: i64,
    pub buffer_id: Option<i64>,
    pub query: String,
    pub query_type: Option<String>,
    pub results_count: Option<i64>,
    pub duration_ms: Option<i64>,
    pub used_by: Option<String>,
    pub result_hash: Option<Vec<u8>>,
    pub created_at: i64,
}

/// Task for dispatch.
#[derive(Debug, Clone)]
pub struct Task {
    pub id: i64,
    pub buffer_id: i64,
    pub chunk_id: Option<i64>,
    pub status: String,
    pub assigned_to: Option<String>,
    pub payload: Option<String>,
    pub result: Option<String>,
    pub created_at: i64,
    pub started_at: Option<i64>,
    pub finished_at: Option<i64>,
}

/// A pending QA re-digest job as stored.
#[derive(Debug, Clone)]
pub struct PendingQaJob {
    /// Numeric rowid.
    pub id: i64,
    /// Stable `qa_cache` answer id this job re-digests.
    pub cache_id: String,
    /// Project the answer belongs to.
    pub project: String,
    /// Author who first asked; tried first when claiming.
    pub preferred_user: Option<String>,
    /// Lifecycle status: `pending` | `leased` | `completed`.
    pub status: String,
    /// Volunteer that currently holds the lease.
    pub leased_by: Option<String>,
    /// Lease expiry epoch seconds (NULL until leased).
    pub leased_until: Option<i64>,
}

/// Counts of pending QA jobs by status (ops/monitoring + maintenance logging).
#[derive(Debug, Clone)]
pub struct PendingQaCounts {
    /// Jobs awaiting a volunteer.
    pub pending: u64,
    /// Jobs currently leased.
    pub leased: u64,
    /// Jobs completed this cycle.
    pub completed: u64,
    /// Jobs reverted from `leased` to `pending` by the last reclaim pass.
    pub expired: u64,
}

/// Input for storing a QA answer.
#[derive(Debug, Clone)]
pub struct StoreAnswerInput {
    /// Scoping buffer id.
    pub buffer_id: Option<i64>,
    /// Project name.
    pub project: String,
    /// Question text as asked.
    pub question_text: String,
    /// Exact-hit hash of the question.
    pub question_hash: String,
    /// Digested answer text.
    pub answer_text: String,
    /// Provenance: chunk ids.
    pub source_chunk_ids: Vec<String>,
    /// Invalidation: chunk content hashes.
    pub source_hashes: Vec<String>,
    /// LLM model (metadata).
    pub model: Option<String>,
    /// Thresholds snapshot (JSON).
    pub tier_snapshot: Option<String>,
    /// Token cost.
    pub token_count: i64,
    /// Authenticated session username that stored the answer. `None` when the
    /// store is used outside an authenticated session.
    pub created_by: Option<String>,
}

/// Result of storing an answer.
#[derive(Debug, Clone)]
pub struct StoredAnswer {
    /// Stable answer id.
    pub cache_id: String,
    /// Numeric rowid (question vector key).
    pub id: i64,
    /// Whether this was a brand-new entry (vs. an idempotent reuse).
    pub created: bool,
}

/// A stored exploration map row.
#[derive(Debug, Clone)]
pub struct ExplorationRow {
    /// Numeric rowid (also the exploration vector key).
    pub id: i64,
    /// Stable UUIDv7 id.
    pub exploration_id: String,
    /// Project name.
    pub project: String,
    /// Scoping buffer id.
    pub buffer_id: Option<i64>,
    /// Objective that drove the exploration.
    pub goal: String,
    /// Decompressed markdown body (the full contract document).
    pub body: String,
    /// Short digest used for embedding.
    pub summary: String,
    /// Agent username that persisted it (audit/provenance).
    pub created_by: String,
    /// LLM model that produced the map (metadata).
    pub model: Option<String>,
    /// Contract version used at persist time.
    pub template_version: String,
    /// Project epoch when the map was created (confidence drift input).
    pub epoch_created: i64,
    /// Lifecycle state (`fresh` | `stale` | `retired`).
    pub status: String,
    /// Broken anchor paths (empty when fresh; advisory).
    pub stale_reason: Vec<String>,
    /// Consumer verifications.
    pub confirmed: i64,
    /// Consumer contradictions.
    pub contradicted: i64,
    pub access_count: i64,
    pub token_count: i64,
    pub created_at: i64,
    pub updated_at: i64,
    pub last_accessed_at: i64,
}

/// One resolved anchor: a cited/context file with its content hash at persist
/// time.
#[derive(Debug, Clone)]
pub struct ExplorationAnchor {
    /// Buffer owning the file.
    pub buffer_id: i64,
    /// File path relative to the project root.
    pub path: String,
    /// Current chunk content hash for the file at persist time.
    pub content_hash: String,
    /// Anchor role (`cited` invalidates, `context` is provenance-only).
    pub role: String,
}

/// Input for persisting an exploration map.
#[derive(Debug, Clone)]
pub struct PersistExplorationInput {
    /// Project name.
    pub project: String,
    /// Scoping buffer id.
    pub buffer_id: Option<i64>,
    /// Objective that drove the exploration.
    pub goal: String,
    /// Full markdown contract document (compressed before insert).
    pub body_markdown: String,
    /// Short digest used for embedding.
    pub summary: String,
    /// Resolved anchors (cited + context files).
    pub anchors: Vec<ExplorationAnchor>,
    /// Agent username (audit/provenance).
    pub created_by: String,
    /// LLM model (metadata).
    pub model: Option<String>,
    /// Contract version (defaults to the current template when empty).
    pub template_version: String,
    /// Reported token cost of producing the map.
    pub token_count: i64,
}

/// Result of storing an exploration.
#[derive(Debug, Clone)]
pub struct StoredExploration {
    /// Stable UUIDv7 id.
    pub exploration_id: String,
    /// Numeric rowid (exploration vector key).
    pub id: i64,
}

/// One anchor whose stored hash no longer matches the current chunk hash.
#[derive(Debug, Clone)]
pub struct BrokenAnchor {
    /// Numeric rowid of the affected exploration.
    pub id: i64,
    /// Stable UUIDv7 id of the affected exploration.
    pub exploration_id: String,
    /// Path whose hash changed (for `stale_reason`).
    pub path: String,
}

/// Input for storing (upserting) a summary node.
#[derive(Debug, Clone)]
pub struct NewRlmNode {
    pub buffer_id: Option<i64>,
    pub project: String,
    pub level: i64,
    pub subject: String,
    pub summary_text: String,
    pub source_hashes: Vec<String>,
    pub model: Option<String>,
    pub volunteer_username: Option<String>,
    pub created_by: Option<String>,
    pub template_version: Option<String>,
    pub token_count: i64,
}

/// A pending/claimed unit of volunteer work.
#[derive(Debug, Clone)]
pub struct RlmJob {
    pub id: i64,
    pub job_key: String,
    pub buffer_id: Option<i64>,
    pub project: String,
    pub level: i64,
    pub subject: String,
    /// JSON payload with input refs (node ids / chunk hashes / texts).
    pub payload: String,
    /// Bumped on cancel/re-enqueue; volunteers echo it back on completion so
    /// stale results from a cancelled lease are rejected.
    pub generation: i64,
    pub status: String,
    pub priority: i64,
    pub claimed_by: Option<String>,
    pub claimed_at: Option<i64>,
    pub lease_expires_at: Option<i64>,
    pub attempts: i64,
    pub last_error: Option<String>,
    pub created_at: i64,
    pub updated_at: i64,
}

/// Input for enqueueing a job. Idempotent per `(project, level, subject)`.
#[derive(Debug, Clone)]
pub struct NewRlmJob {
    pub buffer_id: Option<i64>,
    pub project: String,
    pub level: i64,
    pub subject: String,
    pub payload: String,
    pub priority: i64,
    /// Number of independent volunteer slots to fan the subject out to when the
    /// cosine quorum is enabled (`> 1`). `1` keeps the classic
    /// single-volunteer behaviour. All slots share one generation group so the
    /// quorum can treat them as one decision unit.
    pub quorum_slots: usize,
}

/// A job handed to a volunteer by the claim operation.
#[derive(Debug, Clone)]
pub struct ClaimedRlmJob {
    pub id: i64,
    pub job_key: String,
    pub project: String,
    pub level: i64,
    pub subject: String,
    pub payload: String,
    pub generation: i64,
    /// Lease duration granted, in ms (echoed back to the worker).
    pub lease_ms: i64,
}

} // verus!
