use arags::quorum::{
    accepted_decision, agreeing_set, best_agreeing_clique, byzantine_min_clique,
    choose_published, early_decision, has_quorum, reassign_verdict, rejected_decision,
    published_candidate, quorum_outcome, QuorumDecision, QuorumOutcome, ReassignVerdict,
};

/// Agreement and similarity-code matrices from a symmetric similarity table
/// given as integer codes, with `threshold` the lowest agreeing code.
fn matrices(codes: &[&[u64]], threshold: u64) -> (Vec<Vec<bool>>, Vec<Vec<u64>>) {
    let rank: Vec<Vec<u64>> = codes.iter().map(|r| r.to_vec()).collect();
    let agree = rank
        .iter()
        .map(|r| r.iter().map(|c| *c >= threshold).collect())
        .collect();
    (agree, rank)
}

#[test]
fn byzantine_bound_is_two_f_plus_one() {
    assert_eq!(byzantine_min_clique(0), 1);
    assert_eq!(byzantine_min_clique(1), 1);
    assert_eq!(byzantine_min_clique(3), 1);
    assert_eq!(byzantine_min_clique(4), 3);
    assert_eq!(byzantine_min_clique(7), 5);
    assert_eq!(byzantine_min_clique(10), 7);
}

#[test]
fn two_agreeing_candidates_form_the_clique() {
    // alice and bob agree (identical text), mallory diverges.
    let (agree, rank) = matrices(&[&[100, 100, 10], &[100, 100, 12], &[10, 12, 100]], 85);
    assert_eq!(best_agreeing_clique(&agree, &rank), vec![0, 1]);
    assert!(has_quorum(3, 2));
}

#[test]
fn no_agreement_yields_empty_clique() {
    let (agree, rank) = matrices(&[&[100, 10, 20], &[10, 100, 30], &[20, 30, 100]], 85);
    assert!(best_agreeing_clique(&agree, &rank).is_empty());
}

#[test]
fn fewer_than_two_candidates_never_agree() {
    let (agree, rank) = matrices(&[&[100]], 85);
    assert!(best_agreeing_clique(&agree, &rank).is_empty());
    let (agree, rank) = matrices(&[], 85);
    assert!(best_agreeing_clique(&agree, &rank).is_empty());
}

#[test]
fn larger_clique_beats_denser_pair() {
    let (agree, rank) = matrices(
        &[
            &[100, 90, 90, 99],
            &[90, 100, 90, 10],
            &[90, 90, 100, 10],
            &[99, 10, 10, 100],
        ],
        85,
    );
    assert_eq!(best_agreeing_clique(&agree, &rank), vec![0, 1, 2]);
}

#[test]
fn equal_size_ties_go_to_higher_minimum_then_first_mask() {
    // Pairs {0,1} (code 90) and {2,3} (code 95): the denser pair wins.
    let (agree, rank) = matrices(
        &[
            &[100, 90, 10, 10],
            &[90, 100, 10, 10],
            &[10, 10, 100, 95],
            &[10, 10, 95, 100],
        ],
        85,
    );
    assert_eq!(best_agreeing_clique(&agree, &rank), vec![2, 3]);
    // Equal density: the first subset in mask order ({0,1}) is kept.
    let (agree, rank) = matrices(
        &[
            &[100, 95, 10, 10],
            &[95, 100, 10, 10],
            &[10, 10, 100, 95],
            &[10, 10, 95, 100],
        ],
        85,
    );
    assert_eq!(best_agreeing_clique(&agree, &rank), vec![0, 1]);
}

#[test]
fn two_agreeing_of_four_is_below_two_f_plus_one() {
    // n = 4 -> f = 1 -> at least 3 agreeing candidates are needed.
    let (agree, rank) = matrices(
        &[
            &[100, 100, 5, 7],
            &[100, 100, 6, 8],
            &[5, 6, 100, 9],
            &[7, 8, 9, 100],
        ],
        85,
    );
    let clique = agreeing_set(4, &agree, &rank);
    assert_eq!(clique, vec![0, 1]);
    assert!(!has_quorum(4, clique.len()));
}

#[test]
fn single_slot_quorum_is_the_lone_candidate() {
    let (agree, rank) = matrices(&[&[100]], 85);
    assert_eq!(agreeing_set(1, &agree, &rank), vec![0]);
    assert_eq!(agreeing_set(0, &agree, &rank), vec![0]);
    assert!(has_quorum(1, 1));
    assert!(!has_quorum(3, 0));
}

#[test]
fn pending_until_n_candidates() {
    assert_eq!(early_decision(2, 3, None), Some(QuorumDecision::Pending));
    assert_eq!(early_decision(3, 3, None), None);
    assert_eq!(early_decision(1, 0, None), None);
}

#[test]
fn decided_subject_is_reported_idempotently() {
    let d = early_decision(0, 3, Some((42, "summary".to_string())));
    assert_eq!(
        d,
        Some(QuorumDecision::Accepted {
            fused_text: "summary".to_string(),
            accepted_submission_ids: vec![42],
            rejected_submission_ids: Vec::new(),
        })
    );
    assert_eq!(
        early_decision(0, 3, None),
        Some(QuorumDecision::Rejected { rejected_submission_ids: Vec::new() })
    );
}

#[test]
fn accepted_decision_splits_winners_and_dissenters() {
    let d = accepted_decision(
        "agreed".to_string(),
        &vec![11, 12, 13],
        &vec![0, 1],
        &vec![true, true, true],
    );
    assert_eq!(
        d,
        QuorumDecision::Accepted {
            fused_text: "agreed".to_string(),
            accepted_submission_ids: vec![11, 12],
            rejected_submission_ids: vec![13],
        }
    );
    // A failed storage write leaves the candidate out of both lists.
    let d = accepted_decision("agreed".to_string(), &vec![11, 12, 13], &vec![0, 1], &vec![false, true, true]);
    assert_eq!(
        d,
        QuorumDecision::Accepted {
            fused_text: "agreed".to_string(),
            accepted_submission_ids: vec![12],
            rejected_submission_ids: vec![13],
        }
    );
}

#[test]
fn rejected_decision_collects_distinct_divergers() {
    let authors = vec!["alice".to_string(), "bob".to_string(), "alice".to_string()];
    let (d, divergers) = rejected_decision(&vec![1, 2, 3], &authors, &vec![true, true, true]);
    assert_eq!(d, QuorumDecision::Rejected { rejected_submission_ids: vec![1, 2, 3] });
    assert_eq!(divergers, vec!["alice".to_string(), "bob".to_string()]);
    let (d, divergers) = rejected_decision(&vec![1, 2, 3], &authors, &vec![false, true, false]);
    assert_eq!(d, QuorumDecision::Rejected { rejected_submission_ids: vec![2] });
    assert_eq!(divergers, vec!["bob".to_string()]);
}

#[test]
fn published_candidate_has_highest_score_earliest_on_ties() {
    // Scores are order codes of the trust-weighted scores per candidate.
    assert_eq!(choose_published(&vec![0, 1], &vec![900, 450, 0]), 0);
    assert_eq!(choose_published(&vec![0, 1], &vec![180, 900, 0]), 1);
    assert_eq!(choose_published(&vec![2, 1], &vec![0, 7, 7]), 2);
    assert_eq!(choose_published(&vec![], &vec![1, 2]), 0);
}

#[test]
fn reassignment_is_capped_by_generation() {
    let names = vec!["dave".to_string()];
    let strikes = vec![0];
    let divergers = vec!["alice".to_string()];
    assert_eq!(reassign_verdict(2, 2, &names, &strikes, &divergers, 2), ReassignVerdict::GenerationCapped);
    assert_eq!(reassign_verdict(1, 2, &names, &strikes, &divergers, 2), ReassignVerdict::Reassign);
}

#[test]
fn reassignment_needs_an_available_volunteer() {
    let names = vec!["alice".to_string(), "bob".to_string(), "carol".to_string()];
    let divergers = vec!["alice".to_string(), "bob".to_string(), "carol".to_string()];
    assert_eq!(reassign_verdict(0, 3, &names, &vec![1, 1, 1], &divergers, 3), ReassignVerdict::NoVolunteers);
    // An extra roster member that is neither banned nor diverged keeps it going.
    let names = vec!["alice".to_string(), "bob".to_string(), "carol".to_string(), "dave".to_string()];
    assert_eq!(reassign_verdict(0, 3, &names, &vec![1, 1, 1, 0], &divergers, 3), ReassignVerdict::Reassign);
    // ... unless that member is banned.
    assert_eq!(reassign_verdict(0, 3, &names, &vec![1, 1, 1, 3], &divergers, 3), ReassignVerdict::NoVolunteers);
    // A roster smaller than the fan-out never reports exhaustion.
    assert_eq!(reassign_verdict(0, 3, &names, &vec![1, 1, 1, 3], &divergers, 5), ReassignVerdict::Reassign);
}

#[test]
fn quorum_outcome_applies_the_byzantine_bound() {
    // Three of four agree: 2f + 1 = 3 for n = 4, a quorum.
    let (agree, rank) = matrices(
        &[&[100, 90, 90, 10], &[90, 100, 90, 10], &[90, 90, 100, 10], &[10, 10, 10, 100]],
        85,
    );
    assert_eq!(quorum_outcome(4, &agree, &rank), QuorumOutcome::Reached { agreeing: vec![0, 1, 2] });
    // Only a pair agrees among four: below 3, no consensus.
    let (agree, rank) = matrices(
        &[&[100, 90, 10, 10], &[90, 100, 10, 10], &[10, 10, 100, 10], &[10, 10, 10, 100]],
        85,
    );
    assert_eq!(quorum_outcome(4, &agree, &rank), QuorumOutcome::NoConsensus);
    // A single slot: the lone candidate is the quorum.
    let (agree, rank) = matrices(&[&[100]], 85);
    assert_eq!(quorum_outcome(1, &agree, &rank), QuorumOutcome::Reached { agreeing: vec![0] });
}

#[test]
fn published_text_belongs_to_the_chosen_candidate() {
    let texts = vec!["a".to_string(), "b".to_string(), "c".to_string()];
    let (idx, text) = published_candidate(&vec![0, 2], &vec![5, 9, 7], &texts);
    assert_eq!((idx, text.as_str()), (2, "c"));
    let (idx, text) = published_candidate(&vec![0, 1, 2], &vec![4, 4, 1], &texts);
    assert_eq!((idx, text.as_str()), (0, "a"));
}

#[test]
fn choose_published_prefers_higher_trust() {
    // Two agreeing candidates with near-identical similarity; the score codes
    // order them by trust-weighted score (alice trusted 1.0, bob 0.5).
    let texts = vec!["higher-trust answer".to_string(), "lower-trust answer".to_string()];
    let agreeing = vec![0usize, 1usize];
    let scores = vec![2u64, 1u64];
    assert_eq!(choose_published(&agreeing, &scores), 0);
    assert_eq!(published_candidate(&agreeing, &scores, &texts).1, "higher-trust answer");
    // Reversed trust (alice 0.2, bob 1.0): bob now outranks alice.
    let scores2 = vec![1u64, 2u64];
    assert_eq!(choose_published(&agreeing, &scores2), 1);
    assert_eq!(published_candidate(&agreeing, &scores2, &texts).1, "lower-trust answer");
}

#[test]
fn re_fan_out_stops_at_the_strikes_limit() {
    let names = vec!["dave".to_string(), "erin".to_string(), "frank".to_string()];
    let strikes = vec![0, 0, 0];
    let divergers = vec!["alice".to_string(), "bob".to_string()];
    // strikes_limit = 2: generations 0 and 1 re-fan out, 2 onwards is capped.
    assert_eq!(reassign_verdict(0, 2, &names, &strikes, &divergers, 2), ReassignVerdict::Reassign);
    assert_eq!(reassign_verdict(1, 2, &names, &strikes, &divergers, 2), ReassignVerdict::Reassign);
    for generation in 2..6 {
        assert_eq!(
            reassign_verdict(generation, 2, &names, &strikes, &divergers, 2),
            ReassignVerdict::GenerationCapped
        );
    }
}
