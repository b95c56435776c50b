use arags::queue::{eq_ignore_ascii_case, hashes_match};
use arags::queue::{eviction_excess, eviction_lambda, has_missing_hash, hash_union, pending_qa_counts, qa_lease_expiry};
use arags::rlm::{cascade_step, parent_rebuild, CascadeStep};
use arags::rlm::{
    completion_valid, effective_slots, enqueue_plan, exclusion_names, fail_verdict, granted_lease_ms,
    is_child_of, kept_hashes, l1_unchanged, lease_expiry, parent_of, same_hashes, slot_job_key,
    tally_enqueue, EnqueuePlan, FailVerdict,
};

fn strings(v: &[&str]) -> Vec<String> {
    v.iter().map(|s| s.to_string()).collect()
}

#[test]
fn only_the_lease_holder_completes_the_current_generation() {
    let bob = Some("bob".to_string());
    assert!(completion_valid(&bob, "bob", 2, 2, Some(1_000), 999));
    assert!(completion_valid(&bob, "bob", 2, 2, Some(1_000), 1_000));
    assert!(!completion_valid(&bob, "carol", 2, 2, Some(1_000), 999), "wrong worker");
    assert!(!completion_valid(&bob, "bob", 3, 2, Some(1_000), 999), "wrong gen");
    assert!(!completion_valid(&bob, "bob", 2, 2, Some(1_000), 1_001), "lease expired");
    assert!(!completion_valid(&None, "bob", 2, 2, Some(1_000), 999));
    assert!(!completion_valid(&bob, "bob", 2, 2, None, 999));
}

#[test]
fn leases_are_at_least_a_second() {
    assert_eq!(granted_lease_ms(10), 1_000);
    assert_eq!(granted_lease_ms(500_000), 500_000);
    assert_eq!(lease_expiry(5_000, 10), 6_000);
    assert_eq!(lease_expiry(i64::MAX - 5, 10_000), i64::MAX);
    assert_eq!(qa_lease_expiry(100, 0), 101);
    assert_eq!(qa_lease_expiry(100, 300), 400);
    assert_eq!(qa_lease_expiry(i64::MAX, 300), i64::MAX);
}

#[test]
fn failures_retry_then_park() {
    assert_eq!(fail_verdict(1, 3), FailVerdict::Retry);
    assert_eq!(fail_verdict(3, 3), FailVerdict::Parked);
}

#[test]
fn slots_have_distinct_keys() {
    assert_eq!(effective_slots(0), 1);
    assert_eq!(effective_slots(3), 3);
    assert_eq!(slot_job_key("L1:proj:a.rs", 0, 1), "L1:proj:a.rs");
    assert_eq!(slot_job_key("L1:proj:a.rs", 0, 3), "L1:proj:a.rs#0");
    assert_eq!(slot_job_key("L1:proj:a.rs", 12, 13), "L1:proj:a.rs#12");
    assert_eq!(exclusion_names(&strings(&["alice", "", "bob"])), strings(&["alice", "bob"]));
}

#[test]
fn enqueue_is_idempotent_for_live_work() {
    assert_eq!(enqueue_plan(&vec![], false), EnqueuePlan::Fresh { generation: 0 });
    assert_eq!(enqueue_plan(&vec![], true), EnqueuePlan::Fresh { generation: 1 });
    let live = vec![(4, "done".to_string(), 2, Some(9)), (5, "claimed".to_string(), 2, Some(9))];
    assert_eq!(enqueue_plan(&live, false), EnqueuePlan::KeepLive { first_id: 4, generation: 2 });
    let finished = vec![(4, "done".to_string(), 2, Some(9)), (5, "failed".to_string(), 2, Some(9))];
    assert_eq!(enqueue_plan(&finished, false), EnqueuePlan::Reset { generation: 3, group: Some(9) });
    assert_eq!(enqueue_plan(&finished, true), EnqueuePlan::Reset { generation: 3, group: None });
    let legacy = vec![(4, "done".to_string(), 0, None)];
    assert_eq!(enqueue_plan(&legacy, false), EnqueuePlan::Reset { generation: 1, group: Some(4) });
}

#[test]
fn enqueue_tallies_new_and_reset_work() {
    assert_eq!(tally_enqueue(0, 0, true, 0), (1, 0));
    assert_eq!(tally_enqueue(1, 0, false, 2), (1, 1));
    assert_eq!(tally_enqueue(1, 1, false, 0), (1, 1));
}

#[test]
fn cascade_walks_file_theme_project() {
    assert_eq!(parent_of(1, "src/a.rs", "proj"), Some((2, "src".to_string())));
    assert_eq!(parent_of(1, "README.md", "proj"), Some((2, "(root)".to_string())));
    assert_eq!(parent_of(2, "src", "proj"), Some((3, "proj".to_string())));
    assert_eq!(parent_of(3, "proj", "proj"), None);
    assert!(is_child_of(1, "src/a.rs", "approved", "src"));
    assert!(!is_child_of(1, "lib/a.rs", "approved", "src"));
    assert!(!is_child_of(1, "src/a.rs", "rejected", "src"));
    assert!(is_child_of(2, "anything", "pending", "proj"));
}

#[test]
fn hash_bookkeeping() {
    assert!(same_hashes(&strings(&["b", "a", "a"]), &strings(&["a", "b", "a"])));
    assert!(!same_hashes(&strings(&["a", "b"]), &strings(&["a", "b", "b"])));
    assert!(!same_hashes(&strings(&["a", "a", "b"]), &strings(&["a", "b", "b"])));
    assert!(same_hashes(&Vec::new(), &Vec::new()));
    assert!(l1_unchanged(false, &strings(&["h1", "h2"]), &strings(&["h2", "h1"])));
    assert!(!l1_unchanged(true, &strings(&["h1"]), &strings(&["h1"])));
    assert_eq!(kept_hashes(&strings(&["a", "b", "c"]), &strings(&["c", "a", "z"])), 2);
    assert_eq!(
        hash_union(&vec![strings(&["b", "a"]), strings(&["c", "a"]), vec![]]),
        strings(&["a", "b", "c"])
    );
}

#[test]
fn answer_cache_upkeep() {
    assert_eq!(eviction_excess(0, 100), 0);
    assert_eq!(eviction_excess(10, 10), 0);
    assert_eq!(eviction_excess(10, 13), 3);
    assert_eq!(eviction_lambda(0), 1);
    assert_eq!(eviction_lambda(-5), 1);
    assert_eq!(eviction_lambda(60_000), 60_000);
    assert!(has_missing_hash(&strings(&["a", "x"]), &strings(&["a", "b"])));
    assert!(!has_missing_hash(&strings(&["a", "b"]), &strings(&["b", "a", "c"])));
    let c = pending_qa_counts(2, 1, 5, 3);
    assert_eq!((c.pending, c.leased, c.completed, c.expired), (2, 1, 5, 3));
}

#[test]
fn provenance_hashes_match_up_to_ascii_case() {
    assert!(eq_ignore_ascii_case("ABcd", "abCD"));
    assert!(!eq_ignore_ascii_case("abc", "abd"));
    let current = vec![(1, "ab01".to_string()), (2, "ff".to_string())];
    assert!(hashes_match(&vec![(1, "AB01".to_string()), (2, "FF".to_string())], &current));
    assert!(!hashes_match(&vec![(1, "ab02".to_string())], &current));
    assert!(!hashes_match(&vec![(3, "ff".to_string())], &current), "vanished chunk is drift");
    assert!(hashes_match(&vec![], &current));
}

#[test]
fn cascade_rebuilds_missing_stale_or_drifted_parents() {
    assert_eq!(parent_rebuild(None, false), (true, false));
    assert_eq!(parent_rebuild(Some(true), false), (true, false));
    assert_eq!(parent_rebuild(Some(false), true), (true, true));
    assert_eq!(parent_rebuild(Some(false), false), (false, false));
    assert_eq!(cascade_step(false, true, None), CascadeStep::Skip);
    assert_eq!(cascade_step(true, false, None), CascadeStep::Skip);
    assert_eq!(cascade_step(true, true, Some(true)), CascadeStep::Skip);
    assert_eq!(cascade_step(true, true, Some(false)), CascadeStep::Refresh);
    assert_eq!(cascade_step(true, true, None), CascadeStep::Enqueue);
}

#[test]
fn re_enqueueing_a_live_subject_returns_it_unchanged() {
    let live = vec![(7, "claimed".to_string(), i64::MAX, Some(3))];
    assert_eq!(enqueue_plan(&live, false), EnqueuePlan::KeepLive { first_id: 7, generation: i64::MAX });
    assert_eq!(enqueue_plan(&live, true), EnqueuePlan::KeepLive { first_id: 7, generation: i64::MAX });
}
