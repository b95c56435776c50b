//! Gap metrics reported by the maintenance ticker: the memory-maintenance
//! report and the per-space reconcile counters, with the batching and
//! accounting of a reconcile pass.
use vstd::prelude::*;

verus! {

/// Result of a maintenance pass (mirrors the proto `MaintenanceReport`).
#[derive(Debug, Clone, Copy)]
pub struct MaintenanceReport {
    /// Duplicate chunks removed during consolidation.
    pub duplicate_chunks_removed: u64,
    /// Low-confidence patterns removed during consolidation.
    pub low_confidence_patterns_removed: u64,
    /// Chunks removed by decay.
    pub decayed_chunks: u64,
    /// Chunks kept by decay (evaluated but above the floor).
    pub kept: u64,
}

impl Default for MaintenanceReport {
    fn default() -> (r: Self)
        ensures
            r.duplicate_chunks_removed == 0,
            r.low_confidence_patterns_removed == 0,
            r.decayed_chunks == 0,
            r.kept == 0,
    {
        MaintenanceReport { duplicate_chunks_removed: 0, low_confidence_patterns_removed: 0, decayed_chunks: 0, kept: 0 }
    }
}

impl MaintenanceReport {
    /// Field-wise sum of two reports, as merging them counts it.
    pub open spec fn sum(self, other: MaintenanceReport) -> (int, int, int, int) {
        (
            self.duplicate_chunks_removed + other.duplicate_chunks_removed,
            self.low_confidence_patterns_removed + other.low_confidence_patterns_removed,
            self.decayed_chunks + other.decayed_chunks,
            self.kept + other.kept,
        )
    }

    /// Add every counter of `other` into `self`.
    pub fn merge(&mut self, other: &MaintenanceReport)
        requires
            old(self).duplicate_chunks_removed + other.duplicate_chunks_removed <= u64::MAX,
            old(self).low_confidence_patterns_removed + other.low_confidence_patterns_removed <= u64::MAX,
            old(self).decayed_chunks + other.decayed_chunks <= u64::MAX,
            old(self).kept + other.kept <= u64::MAX,
        ensures
            (final(self).duplicate_chunks_removed as int, final(self).low_confidence_patterns_removed as int,
             final(self).decayed_chunks as int, final(self).kept as int) == old(self).sum(*other),
    {
        self.duplicate_chunks_removed = self.duplicate_chunks_removed + other.duplicate_chunks_removed;
        self.low_confidence_patterns_removed = self.low_confidence_patterns_removed + other.low_confidence_patterns_removed;
        self.decayed_chunks = self.decayed_chunks + other.decayed_chunks;
        self.kept = self.kept + other.kept;
    }
}

/// Per-space reconcile counters (gap metrics).
#[derive(Debug, Clone, Copy)]
pub struct SpaceReconcile {
    /// Pending rows observed before this pass.
    pub pending_before: u64,
    /// Rows successfully re-embedded and re-inserted.
    pub processed: u64,
    /// Rows still failing (no canonical text, embed failure, or insert failure).
    pub remaining: u64,
}

impl Default for SpaceReconcile {
    fn default() -> (r: Self)
        ensures
            r.pending_before == 0,
            r.processed == 0,
            r.remaining == 0,
    {
        SpaceReconcile { pending_before: 0, processed: 0, remaining: 0 }
    }
}

impl SpaceReconcile {
    /// Add every counter of `other` into `self`.
    pub fn merge(&mut self, other: &SpaceReconcile)
        requires
            old(self).pending_before + other.pending_before <= u64::MAX,
            old(self).processed + other.processed <= u64::MAX,
            old(self).remaining + other.remaining <= u64::MAX,
        ensures
            final(self).pending_before == old(self).pending_before + other.pending_before,
            final(self).processed == old(self).processed + other.processed,
            final(self).remaining == old(self).remaining + other.remaining,
    {
        self.pending_before = self.pending_before + other.pending_before;
        self.processed = self.processed + other.processed;
        self.remaining = self.remaining + other.remaining;
    }

    /// Counters of a space about to be reconciled with `pending` rows waiting.
    pub fn starting(pending: usize) -> (r: SpaceReconcile)
        ensures
            r.pending_before == pending,
            r.processed == 0,
            r.remaining == 0,
    {
        SpaceReconcile { pending_before: pending as u64, processed: 0, remaining: 0 }
    }

    /// Account one batch: `cleared` rows re-inserted, and `failed` plus
    /// `missing` rows still pending.
    pub fn record_batch(&mut self, cleared: usize, failed: usize, missing: usize)
        requires
            old(self).processed + cleared <= u64::MAX,
            failed + missing <= usize::MAX,
            old(self).remaining + failed + missing <= u64::MAX,
        ensures
            final(self).pending_before == old(self).pending_before,
            final(self).processed == old(self).processed + cleared,
            final(self).remaining == old(self).remaining + failed + missing,
    {
        self.processed = self.processed + cleared as u64;
        self.remaining = self.remaining + (failed + missing) as u64;
    }
}

/// Aggregate reconcile report.
#[derive(Debug, Clone, Copy)]
pub struct ReconcileReport {
    /// Chunk vector space.
    pub chunks: SpaceReconcile,
    /// QA question vector space.
    pub qa: SpaceReconcile,
    /// RLM summary vector space.
    pub rlm: SpaceReconcile,
    /// Exploration-map vector space.
    pub explorations: SpaceReconcile,
    /// Wall-clock duration of the whole pass in milliseconds.
    pub elapsed_ms: u64,
}

impl Default for ReconcileReport {
    fn default() -> (r: Self)
        ensures
            r.chunks.pending_before == 0 && r.chunks.processed == 0 && r.chunks.remaining == 0,
            r.qa.pending_before == 0 && r.qa.processed == 0 && r.qa.remaining == 0,
            r.rlm.pending_before == 0 && r.rlm.processed == 0 && r.rlm.remaining == 0,
            r.explorations.pending_before == 0 && r.explorations.processed == 0 && r.explorations.remaining == 0,
            r.elapsed_ms == 0,
    {
        ReconcileReport {
            chunks: SpaceReconcile::default(),
            qa: SpaceReconcile::default(),
            rlm: SpaceReconcile::default(),
            explorations: SpaceReconcile::default(),
            elapsed_ms: 0,
        }
    }
}

/// Maximum number of pending rows re-derived per space per page. Bounds peak
/// memory of the text+vector buffers so a burst of failures cannot exhaust
/// memory; the next tick continues where this one stopped.
pub const RECONCILE_BATCH: usize = 512;

/// Concatenation of a list of batches.
pub open spec fn flatten_batches(batches: Seq<Seq<i64>>) -> Seq<i64>
    decreases batches.len(),
{
    if batches.len() == 0 {
        Seq::empty()
    } else {
        flatten_batches(batches.drop_last()) + batches.last()
    }
}

/// Split pending ids into pages of at most [`RECONCILE_BATCH`] ids, in order;
/// every page but the last is full.
pub fn reconcile_batches(ids: &Vec<i64>) -> (batches: Vec<Vec<i64>>)
    ensures
        flatten_batches(batches@.map_values(|b: Vec<i64>| b@)) == ids@,
        forall|k: int| 0 <= k < batches@.len() ==> 1 <= (#[trigger] batches@[k])@.len() <= RECONCILE_BATCH,
        forall|k: int| 0 <= k < batches@.len() - 1 ==> (#[trigger] batches@[k])@.len() == RECONCILE_BATCH,
{
    let mut batches: Vec<Vec<i64>> = Vec::new();
    let mut start: usize = 0;
    let n = ids.len();
    while start < n
        invariant
            n == ids@.len(),
            start <= n,
            flatten_batches(batches@.map_values(|b: Vec<i64>| b@)) == ids@.take(start as int),
            forall|k: int| 0 <= k < batches@.len() ==> 1 <= (#[trigger] batches@[k])@.len() <= RECONCILE_BATCH,
            forall|k: int| 0 <= k < batches@.len() ==> (#[trigger] batches@[k])@.len() == RECONCILE_BATCH,
        decreases n - start,
    {
        let end = if n - start > RECONCILE_BATCH { start + RECONCILE_BATCH } else { n };
        let mut batch: Vec<i64> = Vec::new();
        let mut i = start;
        while i < end
            invariant
                start <= i <= end <= n,
                n == ids@.len(),
                batch@ == ids@.subrange(start as int, i as int),
            decreases end - i,
        {
            batch.push(ids[i]);
            proof {
                assert(ids@.subrange(start as int, i + 1) =~= ids@.subrange(start as int, i as int).push(ids@[i as int]));
            }
            i = i + 1;
        }
        let ghost before = batches@;
        batches.push(batch);
        proof {
            let bm = batches@.map_values(|b: Vec<i64>| b@);
            assert(bm.drop_last() =~= before.map_values(|b: Vec<i64>| b@));
            assert(ids@.take(end as int) =~= ids@.take(start as int) + ids@.subrange(start as int, end as int));
            if end < n {
                assert(batch@.len() == RECONCILE_BATCH);
            }
        }
        if end < n {
            start = end;
        } else {
            start = end;
            proof {
                assert(ids@.take(n as int) =~= ids@);
            }
            return batches;
        }
    }
    proof {
        assert(ids@.take(n as int) =~= ids@);
    }
    batches
}

/// Ids of a batch whose canonical text could not be read (`got` holds the
/// ids that came back), in batch order.
pub fn missing_ids(ids: &Vec<i64>, got: &Vec<i64>) -> (missing: Vec<i64>)
    ensures
        missing@ == ids@.filter(|id: i64| !got@.contains(id)),
{
    let mut missing: Vec<i64> = Vec::new();
    let mut i: usize = 0;
    while i < ids.len()
        invariant
            i <= ids@.len(),
            missing@ == ids@.take(i as int).filter(|id: i64| !got@.contains(id)),
        decreases ids@.len() - i,
    {
        let id = ids[i];
        let mut present = false;
        let mut j: usize = 0;
        while j < got.len()
            invariant
                j <= got@.len(),
                present == exists|k: int| 0 <= k < j && got@[k] == id,
            decreases got@.len() - j,
        {
            if got[j] == id {
                present = true;
            }
            j = j + 1;
        }
        proof {
            assert(ids@.take(i + 1) =~= ids@.take(i as int).push(id));
            ids@.take(i as int).lemma_filter_push(id, |id: i64| !got@.contains(id));
        }
        if !present {
            missing.push(id);
        }
        i = i + 1;
    }
    proof {
        assert(ids@.take(ids@.len() as int) =~= ids@);
    }
    missing
}

/// Ids among the first `k` inputs whose vector insert reported `ok`.
pub open spec fn ids_with_outcome(ids: Seq<i64>, inserted: Seq<bool>, ok: bool, k: nat) -> Seq<i64>
    decreases k,
{
    if k == 0 {
        Seq::empty()
    } else {
        let prev = ids_with_outcome(ids, inserted, ok, (k - 1) as nat);
        if inserted[k - 1] == ok { prev.push(ids[k - 1]) } else { prev }
    }
}

/// Split the inputs of a batch into the rows whose vector was re-inserted
/// (`cleared`) and those whose insert failed (`failed`). `inserted` holds one
/// result per embedded input (inputs beyond it got no vector and are in
/// neither list); `None` means the whole embed batch failed, which leaves
/// every input pending.
pub fn insert_outcomes(ids: &Vec<i64>, inserted: &Option<Vec<bool>>) -> (res: (Vec<i64>, Vec<i64>))
    ensures
        match inserted {
            None => res.0@.len() == 0 && res.1@ == ids@,
            Some(r) => {
                let k = if r@.len() < ids@.len() { r@.len() } else { ids@.len() };
                &&& res.0@ == ids_with_outcome(ids@, r@, true, k as nat)
                &&& res.1@ == ids_with_outcome(ids@, r@, false, k as nat)
            },
        },
{
    match inserted {
        None => {
            let mut all: Vec<i64> = Vec::new();
            let mut i: usize = 0;
            while i < ids.len()
                invariant
                    i <= ids@.len(),
                    all@ == ids@.take(i as int),
                decreases ids@.len() - i,
            {
                all.push(ids[i]);
                proof {
                    assert(ids@.take(i + 1) =~= ids@.take(i as int).push(ids@[i as int]));
                }
                i = i + 1;
            }
            proof {
                assert(ids@.take(ids@.len() as int) =~= ids@);
            }
            (Vec::new(), all)
        }
        Some(r) => {
            let k = if r.len() < ids.len() { r.len() } else { ids.len() };
            let mut cleared: Vec<i64> = Vec::new();
            let mut failed: Vec<i64> = Vec::new();
            let mut i: usize = 0;
            while i < k
                invariant
                    k <= r@.len(),
                    k <= ids@.len(),
                    i <= k,
                    cleared@ == ids_with_outcome(ids@, r@, true, i as nat),
                    failed@ == ids_with_outcome(ids@, r@, false, i as nat),
                decreases k - i,
            {
                if r[i] {
                    cleared.push(ids[i]);
                } else {
                    failed.push(ids[i]);
                }
                i = i + 1;
            }
            (cleared, failed)
        }
    }
}

} // verus!
