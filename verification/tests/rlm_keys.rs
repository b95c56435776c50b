use arags::text::{rlm_job_key, theme_of};

#[test]
fn theme_buckets_by_first_path_segment() {
    assert_eq!(theme_of("crates/foo/src/lib.rs"), "crates");
    assert_eq!(theme_of("README.md"), "(root)");
    assert_eq!(theme_of("(root)/x"), "(root)");
}

#[test]
fn job_key_is_deterministic_per_level_subject() {
    assert_eq!(
        rlm_job_key("proj", 2, "core"),
        rlm_job_key("proj", 2, "core")
    );
    assert_ne!(
        rlm_job_key("proj", 1, "core"),
        rlm_job_key("proj", 2, "core")
    );
}

#[test]
fn job_key_renders_level_in_decimal() {
    assert_eq!(rlm_job_key("proj", 2, "core"), "L2:proj:core");
    assert_eq!(rlm_job_key("p", -15, "s"), "L-15:p:s");
    assert_eq!(rlm_job_key("p", i64::MIN, ""), "L-9223372036854775808:p:");
}
