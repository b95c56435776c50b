use arags::tokens::{
    generate_secure_token, hash_refresh, refresh_expiry, session_expiry, Role,
    REFRESH_TOKEN_BYTES, REFRESH_TOKEN_TTL_MS, SESSION_TOKEN_TTL_MS,
};

#[test]
fn role_round_trips_through_its_storage_string() {
    assert_eq!(Role::Admin.as_str(), "admin");
    assert_eq!(Role::NonAdmin.as_str(), "non_admin");
    for r in [Role::Admin, Role::NonAdmin] {
        assert_eq!(Role::parse(r.as_str()).unwrap(), r);
    }
    let err = Role::parse("root").unwrap_err();
    assert_eq!(err.name, "root");
    assert_eq!("admin".parse::<Role>().unwrap(), Role::Admin);
}

#[test]
fn unreadable_role_column_falls_back_to_non_admin() {
    assert_eq!(Role::from_column("admin"), Role::Admin);
    assert_eq!(Role::from_column("non_admin"), Role::NonAdmin);
    assert_eq!(Role::from_column("ADMIN"), Role::NonAdmin);
    assert_eq!(Role::from_column(""), Role::NonAdmin);
}

#[test]
fn refresh_hash_is_sha256_of_token_then_pepper() {
    assert_eq!(
        hash_refresh("refresh", "pepper"),
        "7779f9f4cb8977b146b33582e742baf0ffd21ff14c190c3539dcee6a9612c3ac"
    );
    assert_eq!(hash_refresh("refreshpepper", ""), hash_refresh("refresh", "pepper"));
    assert_ne!(hash_refresh("refresh", ""), hash_refresh("refresh", "pepper"));
}

#[test]
fn secure_tokens_are_hex_of_the_requested_entropy() {
    let t = generate_secure_token(REFRESH_TOKEN_BYTES).unwrap();
    assert_eq!(t.len(), 2 * REFRESH_TOKEN_BYTES);
    assert!(t.chars().all(|c| c.is_ascii_hexdigit() && !c.is_ascii_uppercase()));
    let u = generate_secure_token(REFRESH_TOKEN_BYTES).unwrap();
    assert_ne!(t, u);
    assert_eq!(generate_secure_token(0).unwrap(), "");
}

#[test]
fn token_lifetimes() {
    assert_eq!(REFRESH_TOKEN_TTL_MS, 365 * 24 * 60 * 60 * 1000);
    assert_eq!(SESSION_TOKEN_TTL_MS, 5 * 60 * 1000);
    assert_eq!(refresh_expiry(1_000), 1_000 + REFRESH_TOKEN_TTL_MS);
    assert_eq!(session_expiry(1_000), 301_000);
}

#[test]
fn clock_reads_epoch_milliseconds() {
    let a = arags::tokens::now_ms().expect("clock after the epoch");
    assert!(a > 1_600_000_000_000);
}

#[test]
fn epoch_millis_fits_or_is_none() {
    assert_eq!(arags::tokens::epoch_millis(0), Some(0));
    assert_eq!(arags::tokens::epoch_millis(1_700_000_000_123), Some(1_700_000_000_123));
    assert_eq!(arags::tokens::epoch_millis(i64::MAX as u128), Some(i64::MAX));
    assert_eq!(arags::tokens::epoch_millis(i64::MAX as u128 + 1), None);
}
