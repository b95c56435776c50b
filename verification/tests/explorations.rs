use arags::explorations::{
    compress_body, contradiction_outcome, crosses_retire_threshold, decompress_body,
    group_broken_anchors, parse_json_array, parse_stale_reason, review_target_status,
    stale_reason_json, BodyError, FeedbackOutcome,
};
use arags::rows::BrokenAnchor;

#[test]
fn body_survives_compression_round_trip() {
    for md in ["", "# Map\n\nfoo -> bar", "ünïcødé ✓ body"] {
        let packed = compress_body(md).unwrap();
        assert_eq!(decompress_body(&packed).unwrap(), md);
    }
}

#[test]
fn garbage_is_not_a_body() {
    assert_eq!(decompress_body(b"not zstd at all").unwrap_err(), BodyError::Decompress);
    let not_utf8 = zstd::stream::encode_all(&[0xffu8, 0xfe][..], 3).unwrap();
    assert_eq!(decompress_body(&not_utf8).unwrap_err(), BodyError::NotUtf8);
}

#[test]
fn stale_reason_column_parsing() {
    assert!(parse_stale_reason(None).is_empty());
    assert!(parse_stale_reason(Some(String::new())).is_empty());
    assert!(parse_stale_reason(Some("{not json".to_string())).is_empty());
    assert!(parse_stale_reason(Some("[1, 2]".to_string())).is_empty());
    assert_eq!(
        parse_stale_reason(Some(r#"["a.rs","b.rs"]"#.to_string())),
        vec!["a.rs".to_string(), "b.rs".to_string()]
    );
    assert_eq!(parse_json_array(Some("[]".to_string())), Vec::<String>::new());
}

#[test]
fn stale_reason_reads_back_as_written() {
    let paths = vec!["src/a.rs".to_string(), "src/\"q\".rs".to_string()];
    let json = stale_reason_json(&paths).unwrap();
    assert_eq!(json, r#"["src/a.rs","src/\"q\".rs"]"#);
    assert_eq!(parse_stale_reason(Some(json)), paths);
}

#[test]
fn contradictions_retire_at_the_limit() {
    assert!(!crosses_retire_threshold(2, 3));
    assert!(crosses_retire_threshold(3, 3));
    assert!(!crosses_retire_threshold(100, 0));
    assert_eq!(
        contradiction_outcome(3, 3, true),
        FeedbackOutcome::Contradicted { contradicted: 3, auto_retired: true }
    );
    // Already retired: the update changed nothing.
    assert_eq!(
        contradiction_outcome(4, 3, false),
        FeedbackOutcome::Contradicted { contradicted: 4, auto_retired: false }
    );
    assert_eq!(
        contradiction_outcome(1, -1, true),
        FeedbackOutcome::Contradicted { contradicted: 1, auto_retired: false }
    );
}

#[test]
fn review_verdict_statuses() {
    assert_eq!(review_target_status(true), "fresh");
    assert_eq!(review_target_status(false), "retired");
}

fn broken(id: i64, eid: &str, path: &str) -> BrokenAnchor {
    BrokenAnchor { id, exploration_id: eid.to_string(), path: path.to_string() }
}

#[test]
fn broken_anchors_group_by_map_in_rowid_order() {
    let groups = group_broken_anchors(&vec![
        broken(9, "e9", "z.rs"),
        broken(2, "e2", "b.rs"),
        broken(9, "e9", "a.rs"),
        broken(2, "e2", "b.rs"),
        broken(5, "e5", "c.rs"),
    ]);
    let ids: Vec<i64> = groups.iter().map(|g| g.id).collect();
    assert_eq!(ids, vec![2, 5, 9]);
    assert_eq!(groups[0].paths, vec!["b.rs".to_string()]);
    assert_eq!(groups[2].paths, vec!["a.rs".to_string(), "z.rs".to_string()]);
    assert_eq!(groups[2].exploration_id, "e9");
    assert!(group_broken_anchors(&Vec::new()).is_empty());
}

#[test]
fn empty_template_version_takes_the_default() {
    assert_eq!(arags::explorations::effective_template_version("", "v1"), "v1");
    assert_eq!(arags::explorations::effective_template_version("v2", "v1"), "v2");
}
