use arags::persistence::{check_dimensions, PersistState, SAVE_DEBOUNCE_MS};
use arags::reports::{
    insert_outcomes, missing_ids, reconcile_batches, MaintenanceReport, ReconcileReport,
    SpaceReconcile, RECONCILE_BATCH,
};
use arags::versioning::{
    distinct_file_count, plan_chunk, retention_cutoff_secs, revision_after, transaction_batch,
    BatchedInsert, ChunkPlan,
};

#[test]
fn maintenance_reports_merge_field_by_field() {
    let mut a = MaintenanceReport { duplicate_chunks_removed: 2, low_confidence_patterns_removed: 1, decayed_chunks: 0, kept: 0 };
    let b = MaintenanceReport { duplicate_chunks_removed: 0, low_confidence_patterns_removed: 0, decayed_chunks: 5, kept: 7 };
    a.merge(&b);
    assert_eq!((a.duplicate_chunks_removed, a.low_confidence_patterns_removed, a.decayed_chunks, a.kept), (2, 1, 5, 7));
    let d = MaintenanceReport::default();
    assert_eq!((d.duplicate_chunks_removed, d.kept), (0, 0));
}

#[test]
fn reconcile_counters_accumulate() {
    let mut total = SpaceReconcile::default();
    let mut space = SpaceReconcile::starting(10);
    space.record_batch(6, 1, 3);
    assert_eq!((space.pending_before, space.processed, space.remaining), (10, 6, 4));
    total.merge(&space);
    total.merge(&space);
    assert_eq!((total.pending_before, total.processed, total.remaining), (20, 12, 8));
    let r = ReconcileReport::default();
    assert_eq!(r.elapsed_ms, 0);
    assert_eq!(r.qa.processed, 0);
}

#[test]
fn pending_ids_are_paged_by_batch() {
    let ids: Vec<i64> = (0..1100).collect();
    let pages = reconcile_batches(&ids);
    let sizes: Vec<usize> = pages.iter().map(Vec::len).collect();
    assert_eq!(sizes, vec![RECONCILE_BATCH, RECONCILE_BATCH, 76]);
    assert_eq!(pages.concat(), ids);
    assert!(reconcile_batches(&Vec::new()).is_empty());
    assert_eq!(reconcile_batches(&(0..512).collect()).len(), 1);
}

#[test]
fn missing_and_inserted_rows_are_told_apart() {
    assert_eq!(missing_ids(&vec![1, 2, 3, 4], &vec![3, 1]), vec![2, 4]);
    let (cleared, failed) = insert_outcomes(&vec![1, 2, 3], &Some(vec![true, false, true]));
    assert_eq!((cleared, failed), (vec![1, 3], vec![2]));
    // An embed batch that failed leaves everything pending.
    let (cleared, failed) = insert_outcomes(&vec![1, 2, 3], &None);
    assert_eq!((cleared, failed), (vec![], vec![1, 2, 3]));
    // Fewer vectors than inputs: trailing inputs are in neither list.
    let (cleared, failed) = insert_outcomes(&vec![1, 2, 3], &Some(vec![true]));
    assert_eq!((cleared, failed), (vec![1], vec![]));
}

#[test]
fn chunk_versioning_decisions() {
    let same = Some((7, vec![1u8, 2], 3));
    assert_eq!(plan_chunk(true, &same, &vec![1, 2]), ChunkPlan::Unchanged { id: 7 });
    assert_eq!(plan_chunk(true, &same, &vec![9]), ChunkPlan::Supersede { old_id: 7, version: 4 });
    assert_eq!(plan_chunk(true, &None, &vec![9]), ChunkPlan::Fresh { handled: true });
    assert_eq!(plan_chunk(false, &None, &vec![9]), ChunkPlan::Fresh { handled: false });
}

#[test]
fn batched_insert_bookkeeping() {
    let mut b = BatchedInsert::new();
    let key = |p: &str| (p.to_string(), 1i64, 5i64);
    b.record(ChunkPlan::Unchanged { id: 7 }, 0, key("a.rs"), "a".to_string());
    b.record(ChunkPlan::Supersede { old_id: 8, version: 2 }, 20, key("b.rs"), "b".to_string());
    b.record(ChunkPlan::Fresh { handled: false }, 21, key("c.rs"), "c".to_string());
    b.record(ChunkPlan::Fresh { handled: true }, 22, key("d.rs"), "d".to_string());
    assert_eq!(b.persisted, vec![(7, "a".to_string()), (20, "b".to_string()), (21, "c".to_string()), (22, "d".to_string())]);
    assert_eq!(b.handled_keys, vec![key("a.rs"), key("b.rs"), key("d.rs")]);
    assert_eq!(b.retired_ids, vec![8]);
    assert_eq!(b.inserted, 3);
}

#[test]
fn versioning_helpers() {
    assert_eq!(revision_after(None), 1);
    assert_eq!(revision_after(Some(4)), 5);
    assert_eq!(transaction_batch(0), 1);
    assert_eq!(transaction_batch(64), 64);
    assert_eq!(retention_cutoff_secs(7), 604_800);
    assert_eq!(retention_cutoff_secs(0), 0);
    let files: Vec<String> = ["a.rs", "b.rs", "a.rs", "c.rs", "b.rs"].iter().map(|s| s.to_string()).collect();
    assert_eq!(distinct_file_count(&files), 3);
    assert_eq!(distinct_file_count(&Vec::new()), 0);
}

#[test]
fn manual_persist_mode_never_writes_implicitly() {
    let mut s = PersistState::new(false);
    assert!(!s.on_mutation(0));
    assert!(s.is_dirty());
    assert!(s.flush_needed());
    s.on_saved(10);
    assert!(!s.is_dirty());
    assert!(!s.flush_needed());
}

#[test]
fn auto_persist_debounces_bursts_on_a_fake_clock() {
    let mut s = PersistState::new(true);
    // First mutation saves immediately.
    assert!(s.on_mutation(1_000));
    s.on_saved(1_000);
    assert!(!s.is_dirty());
    // Burst within the debounce window: stays dirty.
    assert!(!s.on_mutation(1_100));
    assert!(!s.on_mutation(1_200));
    assert!(s.is_dirty());
    // After the window elapses the next mutation flushes everything.
    assert!(s.on_mutation(1_000 + SAVE_DEBOUNCE_MS));
}

#[test]
fn vector_dimensions_must_match() {
    assert!(check_dimensions(4, 4).is_ok());
    let e = check_dimensions(4, 8).unwrap_err();
    assert_eq!((e.expected, e.got), (4, 8));
}

#[test]
fn unchanged_chunk_is_reused_at_any_version() {
    let top = Some((7, vec![1, 2], i64::MAX));
    assert_eq!(plan_chunk(true, &top, &vec![1, 2]), ChunkPlan::Unchanged { id: 7 });
}

#[test]
fn answer_columns_render_json_and_default_snapshot() {
    let mut input = arags::rows::StoreAnswerInput {
        buffer_id: Some(1),
        project: "p".to_string(),
        question_text: "q".to_string(),
        question_hash: "h".to_string(),
        answer_text: "a".to_string(),
        source_chunk_ids: vec!["1".to_string(), "2".to_string()],
        source_hashes: vec!["ab".to_string()],
        model: None,
        tier_snapshot: None,
        token_count: 3,
        created_by: None,
    };
    let c = arags::answers::answer_columns(&input);
    assert_eq!(c.chunk_ids_json, r#"["1","2"]"#);
    assert_eq!(c.hashes_json, r#"["ab"]"#);
    assert_eq!(c.snapshot, "{}");
    input.tier_snapshot = Some(r#"{"t":1}"#.to_string());
    assert_eq!(arags::answers::answer_columns(&input).snapshot, r#"{"t":1}"#);
}
