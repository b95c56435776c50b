//! Debounced whole-file persistence of a vector index.
//!
//! Mutations mark the index dirty and, under automatic persistence, flush at
//! most once per [`SAVE_DEBOUNCE_MS`], so bursts of inserts amortise to a
//! single file write while keeping the worst-case loss window bounded. An
//! explicit flush saves whenever there are unsaved mutations. Times are
//! milliseconds on a monotonic clock supplied by the caller.
use vstd::prelude::*;

verus! {

/// Minimum interval between whole-file index saves under automatic
/// (debounced) persistence.
pub const SAVE_DEBOUNCE_MS: u64 = 2000;

/// Persistence bookkeeping of one vector index.
#[derive(Debug)]
pub struct PersistState {
    /// Flush on mutation (debounced) rather than only on explicit request.
    pub auto_persist: bool,
    /// Unsaved mutations exist.
    pub dirty: bool,
    /// When the last successful save happened.
    pub last_save_ms: Option<u64>,
}

/// A save is due on mutation: the index has never been saved, or the debounce
/// window since the last save has elapsed.
pub open spec fn save_due(last_save_ms: Option<u64>, now_ms: u64) -> bool {
    match last_save_ms {
        Some(last) => (if now_ms >= last { now_ms - last } else { 0 }) >= SAVE_DEBOUNCE_MS,
        None => true,
    }
}

/// A mutation at `now_ms` triggers a save.
pub open spec fn mutation_saves(auto_persist: bool, last_save_ms: Option<u64>, now_ms: u64) -> bool {
    auto_persist && save_due(last_save_ms, now_ms)
}

impl PersistState {
    /// A freshly opened index: clean and never saved.
    pub fn new(auto_persist: bool) -> (s: PersistState)
        ensures
            s.auto_persist == auto_persist,
            !s.dirty,
            s.last_save_ms is None,
    {
        PersistState { auto_persist, dirty: false, last_save_ms: None }
    }

    /// Whether there are unsaved mutations.
    pub fn is_dirty(&self) -> (d: bool)
        ensures
            d == self.dirty,
    {
        self.dirty
    }

    /// Record a mutation at `now_ms`. Returns whether the index should be
    /// saved now (automatic persistence with the debounce window elapsed).
    pub fn on_mutation(&mut self, now_ms: u64) -> (save_now: bool)
        ensures
            final(self).dirty,
            final(self).auto_persist == old(self).auto_persist,
            final(self).last_save_ms == old(self).last_save_ms,
            save_now == mutation_saves(old(self).auto_persist, old(self).last_save_ms, now_ms),
    {
        self.dirty = true;
        if !self.auto_persist {
            return false;
        }
        match self.last_save_ms {
            Some(last) => now_ms.saturating_sub(last) >= SAVE_DEBOUNCE_MS,
            None => true,
        }
    }

    /// Whether an explicit flush has anything to write.
    pub fn flush_needed(&self) -> (n: bool)
        ensures
            n == self.dirty,
    {
        self.dirty
    }

    /// Record a successful save at `now_ms`.
    pub fn on_saved(&mut self, now_ms: u64)
        ensures
            !final(self).dirty,
            final(self).auto_persist == old(self).auto_persist,
            final(self).last_save_ms == Some(now_ms),
    {
        self.dirty = false;
        self.last_save_ms = Some(now_ms);
    }
}

/// Manual persistence never writes implicitly: a mutation leaves the index
/// dirty and asks for no save.
pub proof fn lemma_manual_mode_never_saves_implicitly(last_save_ms: Option<u64>, now_ms: u64)
    ensures
        !mutation_saves(false, last_save_ms, now_ms),
{
}

/// Under automatic persistence the first mutation of a never-saved index is
/// flushed at once, and a mutation within the debounce window of the last
/// save is not.
pub proof fn lemma_debounce_window(last: u64, now_ms: u64)
    ensures
        mutation_saves(true, None, now_ms),
        now_ms >= last && now_ms - last < SAVE_DEBOUNCE_MS ==> !mutation_saves(true, Some(last), now_ms),
        now_ms >= last && now_ms - last >= SAVE_DEBOUNCE_MS ==> mutation_saves(true, Some(last), now_ms),
{
}

/// A vector whose length differs from the index dimensionality.
#[derive(Debug, Clone, Copy, PartialEq, Eq)]
pub struct DimensionMismatch {
    /// The index dimensionality.
    pub expected: usize,
    /// The offered vector's length.
    pub got: usize,
}

/// Accept a vector of `len` components for an index of `dims` dimensions.
pub fn check_dimensions(dims: usize, len: usize) -> (r: Result<(), DimensionMismatch>)
    ensures
        r is Ok <==> len == dims,
        r matches Err(e) ==> e.expected == dims && e.got == len,
{
    if len != dims {
        Err(DimensionMismatch { expected: dims, got: len })
    } else {
        Ok(())
    }
}

} // verus!
