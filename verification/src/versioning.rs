//! Immutable chunk versioning for re-indexing.
//!
//! A chunk's *position* within a buffer is its provenance file plus its line
//! span. Re-indexing the same position either reuses the active row (same
//! content hash), supersedes it with a new version (different hash), or
//! inserts a brand-new row (no active row there). This module decides which,
//! and keeps the bookkeeping the index loop reports back.
use vstd::prelude::*;

verus! {

/// Composite key of a chunk position: `(file_path, line_start, line_end)`.
pub type ChunkKey = (String, i64, i64);

/// Result of a batched chunk insert under immutable-versioning semantics.
#[derive(Debug)]
pub struct BatchedInsert {
    /// `(chunk_id, content)` for every persisted chunk (new rows and unchanged
    /// rows that were reused in place), for the caller to embed + vectorize.
    pub persisted: Vec<(i64, String)>,
    /// Snapshot keys that matched an existing active row this batch, so the
    /// caller can drop them from its "remaining active" set.
    pub handled_keys: Vec<ChunkKey>,
    /// Ids of previous active rows that were retired this batch (superseded by
    /// a new version), so the caller can purge their vectors.
    pub retired_ids: Vec<i64>,
    /// Number of *new* rows actually inserted (excludes unchanged rows that
    /// were reused), for buffer count accounting.
    pub inserted: usize,
}

/// What to do with one incoming chunk.
#[derive(Debug, Clone, Copy, PartialEq, Eq)]
pub enum ChunkPlan {
    /// The active row at this position has the same hash: reuse it.
    Unchanged { id: i64 },
    /// The active row at this position changed: insert `version` and retire
    /// `old_id`, linking it to the new row.
    Supersede { old_id: i64, version: i64 },
    /// No active row at this position: insert version 1. `handled` says
    /// whether the start-of-stream snapshot listed the position.
    Fresh { handled: bool },
}

fn bytes_eq(a: &Vec<u8>, b: &Vec<u8>) -> (r: bool)
    ensures
        r == (a@ == b@),
{
    if a.len() != b.len() {
        return false;
    }
    let mut i: usize = 0;
    while i < a.len()
        invariant
            a@.len() == b@.len(),
            i <= a@.len(),
            forall|j: int| 0 <= j < i ==> a@[j] == b@[j],
        decreases a@.len() - i,
    {
        if a[i] != b[i] {
            return false;
        }
        i = i + 1;
    }
    proof {
        assert(a@ =~= b@);
    }
    true
}

/// Versioning decision for one chunk. `in_snapshot` says whether the
/// start-of-stream snapshot had an active row at the chunk's position;
/// `existing` is the live active row there, `(id, hash, version)`, as looked
/// up only when the snapshot has the position.
pub fn plan_chunk(in_snapshot: bool, existing: &Option<(i64, Vec<u8>, i64)>, hash: &Vec<u8>) -> (plan: ChunkPlan)
    requires
        in_snapshot ==> match existing {
            Some(row) => row.1@ != hash@ ==> row.2 < i64::MAX,
            None => true,
        },
    ensures
        !in_snapshot ==> plan == (ChunkPlan::Fresh { handled: false }),
        in_snapshot ==> match existing {
            Some(row) => if row.1@ == hash@ {
                plan == (ChunkPlan::Unchanged { id: row.0 })
            } else {
                plan == (ChunkPlan::Supersede { old_id: row.0, version: (row.2 + 1) as i64 })
            },
            None => plan == (ChunkPlan::Fresh { handled: true }),
        },
{
    if !in_snapshot {
        return ChunkPlan::Fresh { handled: false };
    }
    match existing {
        Some(row) => {
            if bytes_eq(&row.1, hash) {
                ChunkPlan::Unchanged { id: row.0 }
            } else {
                ChunkPlan::Supersede { old_id: row.0, version: row.2 + 1 }
            }
        }
        None => ChunkPlan::Fresh { handled: true },
    }
}

impl BatchedInsert {
    /// Nothing persisted yet.
    pub fn new() -> (b: BatchedInsert)
        ensures
            b.persisted@.len() == 0,
            b.handled_keys@.len() == 0,
            b.retired_ids@.len() == 0,
            b.inserted == 0,
    {
        BatchedInsert { persisted: Vec::new(), handled_keys: Vec::new(), retired_ids: Vec::new(), inserted: 0 }
    }

    /// Record the outcome of `plan` for the chunk at `key` with `content`;
    /// `new_id` is the row inserted for a supersede or a fresh chunk (unused
    /// when the row is reused).
    pub fn record(&mut self, plan: ChunkPlan, new_id: i64, key: ChunkKey, content: String)
        requires
            old(self).inserted < usize::MAX,
        ensures
            match plan {
                ChunkPlan::Unchanged { id } => {
                    &&& final(self).persisted@ == old(self).persisted@.push((id, content))
                    &&& final(self).handled_keys@ == old(self).handled_keys@.push(key)
                    &&& final(self).retired_ids@ == old(self).retired_ids@
                    &&& final(self).inserted == old(self).inserted
                },
                ChunkPlan::Supersede { old_id, version } => {
                    &&& final(self).persisted@ == old(self).persisted@.push((new_id, content))
                    &&& final(self).handled_keys@ == old(self).handled_keys@.push(key)
                    &&& final(self).retired_ids@ == old(self).retired_ids@.push(old_id)
                    &&& final(self).inserted == old(self).inserted + 1
                },
                ChunkPlan::Fresh { handled } => {
                    &&& final(self).persisted@ == old(self).persisted@.push((new_id, content))
                    &&& final(self).handled_keys@ == if handled { old(self).handled_keys@.push(key) } else { old(self).handled_keys@ }
                    &&& final(self).retired_ids@ == old(self).retired_ids@
                    &&& final(self).inserted == old(self).inserted + 1
                },
            },
    {
        match plan {
            ChunkPlan::Unchanged { id } => {
                self.persisted.push((id, content));
                self.handled_keys.push(key);
            }
            ChunkPlan::Supersede { old_id, version: _ } => {
                self.retired_ids.push(old_id);
                self.persisted.push((new_id, content));
                self.handled_keys.push(key);
                self.inserted = self.inserted + 1;
            }
            ChunkPlan::Fresh { handled } => {
                if handled {
                    self.handled_keys.push(key);
                }
                self.persisted.push((new_id, content));
                self.inserted = self.inserted + 1;
            }
        }
    }
}

/// Revision number of a row written over the active revision
/// `existing_version` (if any): one past it, or 1 for a first revision.
pub fn revision_after(existing_version: Option<i64>) -> (v: i64)
    requires
        existing_version matches Some(old) ==> old < i64::MAX,
    ensures
        v == match existing_version {
            Some(old) => old + 1,
            None => 1,
        },
{
    match existing_version {
        Some(old) => old + 1,
        None => 1,
    }
}

/// Rows per committed transaction: the configured batch size, at least one.
pub fn transaction_batch(max_batch: usize) -> (b: usize)
    ensures
        b == if max_batch == 0 { 1 } else { max_batch },
{
    if max_batch == 0 { 1 } else { max_batch }
}

/// Age, in seconds, beyond which a retired chunk is purged for a retention of
/// `retention_days` days.
pub fn retention_cutoff_secs(retention_days: u64) -> (secs: i64)
    requires
        (retention_days as i64) * 86400 <= i64::MAX,
        (retention_days as i64) * 86400 >= i64::MIN,
    ensures
        secs == (retention_days as i64) * 86400,
{
    (retention_days as i64) * 86400
}

/// Number of distinct file paths among `paths`.
pub fn distinct_file_count(paths: &Vec<String>) -> (n: usize)
    ensures
        n == paths@.map_values(|s: String| s@).to_set().len(),
{
    let ghost pv = paths@.map_values(|s: String| s@);
    let mut seen: Vec<String> = Vec::new();
    let mut i: usize = 0;
    while i < paths.len()
        invariant
            pv == paths@.map_values(|s: String| s@),
            i <= paths@.len(),
            seen@.map_values(|s: String| s@).no_duplicates(),
            seen@.map_values(|s: String| s@).to_set() == pv.take(i as int).to_set(),
        decreases paths@.len() - i,
    {
        let ghost sv = seen@.map_values(|s: String| s@);
        let mut present = false;
        let mut j: usize = 0;
        while j < seen.len()
            invariant
                sv == seen@.map_values(|s: String| s@),
                i < paths@.len(),
                j <= seen@.len(),
                present == exists|k: int| 0 <= k < j && sv[k] == paths@[i as int]@,
            decreases seen@.len() - j,
        {
            proof {
                assert(sv[j as int] == seen@[j as int]@);
            }
            if seen[j] == paths[i] {
                present = true;
            }
            j = j + 1;
        }
        proof {
            assert(pv.take(i + 1) =~= pv.take(i as int).push(pv[i as int]));
            pv.take(i as int).lemma_push_to_set_commute(pv[i as int]);
        }
        if !present {
            seen.push(paths[i].clone());
            proof {
                let nv = seen@.map_values(|s: String| s@);
                assert(nv =~= sv.push(pv[i as int]));
                sv.lemma_push_to_set_commute(pv[i as int]);
                assert(!sv.contains(pv[i as int]));
            }
        } else {
            proof {
                assert(sv.to_set().contains(pv[i as int]));
                assert(pv.take(i as int).to_set().insert(pv[i as int]) =~= pv.take(i as int).to_set());
            }
        }
        i = i + 1;
    }
    proof {
        assert(pv.take(paths@.len() as int) =~= pv);
        seen@.map_values(|s: String| s@).unique_seq_to_set();
    }
    seen.len()
}

} // verus!
