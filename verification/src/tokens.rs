//! Refresh-token and session-token primitives for auth.
//!
//! Refresh tokens are long-lived (1 year) and stored hashed; session tokens
//! are short-lived (5 min) and derived from a refresh token. `Role` is the
//! source of truth for authorization; it round-trips to the `admin` /
//! `non_admin` strings stored with each token.
use vstd::prelude::*;
use crate::hashing::sha256_hex;
use crate::hexcodec::hex_encode;
use std::time::{Duration, SystemTime, SystemTimeError};

verus! {

/// Authorization role.
#[derive(Debug, Clone, Copy, PartialEq, Eq, Structural)]
pub enum Role {
    /// May invalidate cache and manage tokens.
    Admin,
    /// May only query/store cache.
    NonAdmin,
}


/// Stable wire/storage string of a role.
pub open spec fn role_str_spec(r: Role) -> Seq<char> {
    match r {
        Role::Admin => seq!['a', 'd', 'm', 'i', 'n'],
        Role::NonAdmin => seq!['n', 'o', 'n', '_', 'a', 'd', 'm', 'i', 'n'],
    }
}

/// A stored role string that names no role.
#[derive(Debug)]
pub struct UnknownRole {
    /// The offending text.
    pub name: String,
}

impl Role {
    /// Stable wire/storage string.
    pub fn as_str(self) -> (s: &'static str)
        ensures
            s@ == role_str_spec(self),
    {
        match self {
            Role::Admin => {
                proof {
                    reveal_strlit("admin");
                }
                "admin"
            }
            Role::NonAdmin => {
                proof {
                    reveal_strlit("non_admin");
                }
                "non_admin"
            }
        }
    }

    /// Parse a stored role string; anything but `admin` / `non_admin` is an
    /// unknown role.
    pub fn parse(s: &str) -> (r: Result<Role, UnknownRole>)
        ensures
            s@ == role_str_spec(Role::Admin) ==> r == Ok::<Role, UnknownRole>(Role::Admin),
            s@ == role_str_spec(Role::NonAdmin) ==> r == Ok::<Role, UnknownRole>(Role::NonAdmin),
            s@ != role_str_spec(Role::Admin) && s@ != role_str_spec(Role::NonAdmin) ==>
                (r matches Err(e) && e.name@ == s@),
    {
        if crate::text::str_eq(s, Role::Admin.as_str()) {
            Ok(Role::Admin)
        } else if crate::text::str_eq(s, Role::NonAdmin.as_str()) {
            Ok(Role::NonAdmin)
        } else {
            Err(UnknownRole { name: s.to_owned() })
        }
    }

    /// The role stored in a token row; an unreadable value falls back to the
    /// least-privileged role.
    pub fn from_column(s: &str) -> (r: Role)
        ensures
            r == (if s@ == role_str_spec(Role::Admin) { Role::Admin } else { Role::NonAdmin }),
    {
        match Role::parse(s) {
            Ok(role) => role,
            Err(_) => Role::NonAdmin,
        }
    }
}

impl std::str::FromStr for Role {
    type Err = UnknownRole;

    fn from_str(s: &str) -> (r: Result<Role, UnknownRole>)
        ensures
            s@ == role_str_spec(Role::Admin) ==> r == Ok::<Role, UnknownRole>(Role::Admin),
            s@ == role_str_spec(Role::NonAdmin) ==> r == Ok::<Role, UnknownRole>(Role::NonAdmin),
            s@ != role_str_spec(Role::Admin) && s@ != role_str_spec(Role::NonAdmin) ==>
                (r matches Err(e) && e.name@ == s@),
    {
        Role::parse(s)
    }
}

/// Parsing gives back the role that was written: `as_str` and `parse`
/// round-trip for every role.
pub proof fn lemma_role_roundtrip(r: Role)
    ensures
        role_str_spec(r) == role_str_spec(Role::Admin) ==> r == Role::Admin,
        role_str_spec(r) == role_str_spec(Role::NonAdmin) ==> r == Role::NonAdmin,
        role_str_spec(Role::Admin) != role_str_spec(Role::NonAdmin),
{
    assert(role_str_spec(Role::Admin).len() != role_str_spec(Role::NonAdmin).len());
}

/// Duration of a refresh token: 1 year, in milliseconds.
pub const REFRESH_TOKEN_TTL_MS: i64 = 31536000000;

/// Duration of a session token: 5 minutes, in milliseconds.
pub const SESSION_TOKEN_TTL_MS: i64 = 300000;

/// Length in bytes of the generated refresh token.
pub const REFRESH_TOKEN_BYTES: usize = 128;

#[verifier::external_type_specification]
#[verifier::external_body]
pub struct ExSystemTime(std::time::SystemTime);

#[verifier::external_type_specification]
#[verifier::external_body]
pub struct ExSystemTimeError(std::time::SystemTimeError);

/// `SystemTime::now`: the current wall-clock time. Nothing is promised of the
/// value: it is the current time.
#[verifier::external_body]
fn system_time_now() -> SystemTime {
    SystemTime::now()
}

/// `SystemTime::duration_since(UNIX_EPOCH)`: the time elapsed since the Unix
/// epoch, or an error when the clock reads earlier than the epoch.
#[verifier::external_body]
fn since_unix_epoch(t: &SystemTime) -> Result<Duration, SystemTimeError> {
    t.duration_since(std::time::UNIX_EPOCH)
}

/// Epoch milliseconds as an `i64`, when the count fits.
pub open spec fn epoch_millis_spec(ms: u128) -> Option<i64> {
    if ms <= i64::MAX as u128 {
        Some(ms as i64)
    } else {
        None
    }
}

/// A clock reading of `ms` milliseconds since the epoch as an `i64`, or
/// `None` past what an `i64` holds.
pub fn epoch_millis(ms: u128) -> (r: Option<i64>)
    ensures
        r == epoch_millis_spec(ms),
{
    if ms <= 9223372036854775807u128 {
        Some(ms as i64)
    } else {
        None
    }
}

/// Current epoch milliseconds (UTC), or `None` when the system clock reads
/// before the Unix epoch or past what an `i64` of milliseconds can hold.
pub fn now_ms() -> (r: Option<i64>)
    ensures
        r matches Some(ms) ==> ms >= 0,
{
    let t = system_time_now();
    match since_unix_epoch(&t) {
        Ok(d) => {
            epoch_millis(crate::timing::duration_as_millis(&d))
        }
        Err(_) => None,
    }
}

/// Expiry of a refresh token created at `now`.
pub fn refresh_expiry(now: i64) -> (e: i64)
    requires
        now + REFRESH_TOKEN_TTL_MS <= i64::MAX,
    ensures
        e == now + REFRESH_TOKEN_TTL_MS,
{
    now + REFRESH_TOKEN_TTL_MS
}

/// Expiry of a session token created at `now`.
pub fn session_expiry(now: i64) -> (e: i64)
    requires
        now + SESSION_TOKEN_TTL_MS <= i64::MAX,
    ensures
        e == now + SESSION_TOKEN_TTL_MS,
{
    now + SESSION_TOKEN_TTL_MS
}

/// The stored form of a refresh token: lowercase hex SHA-256 of the token's
/// UTF-8 bytes followed by the server pepper's.
pub open spec fn refresh_hash_spec(refresh: Seq<char>, pepper: Seq<char>) -> Seq<char> {
    crate::hashing::sha256_hex_spec(vstd::utf8::encode_utf8(refresh) + vstd::utf8::encode_utf8(pepper))
}

/// Hash a refresh token with SHA-256, salted by the server `pepper` (empty
/// when none is configured).
///
/// Only the hash is persisted; the plaintext refresh token lives solely on the
/// client and at creation time.
pub fn hash_refresh(refresh: &str, pepper: &str) -> (h: String)
    ensures
        h@ == refresh_hash_spec(refresh@, pepper@),
{
    let mut input: Vec<u8> = Vec::new();
    let a = refresh.as_bytes();
    let b = pepper.as_bytes();
    let mut i: usize = 0;
    while i < a.len()
        invariant
            i <= a@.len(),
            input@ == a@.take(i as int),
        decreases a@.len() - i,
    {
        input.push(a[i]);
        proof {
            assert(a@.take(i + 1) =~= a@.take(i as int).push(a@[i as int]));
        }
        i = i + 1;
    }
    let mut j: usize = 0;
    while j < b.len()
        invariant
            j <= b@.len(),
            input@ == a@ + b@.take(j as int),
        decreases b@.len() - j,
    {
        input.push(b[j]);
        proof {
            assert(a@ + b@.take(j + 1) =~= (a@ + b@.take(j as int)).push(b@[j as int]));
        }
        j = j + 1;
    }
    proof {
        assert(a@.take(a@.len() as int) =~= a@);
        assert(b@.take(b@.len() as int) =~= b@);
        assert(input@ =~= a@ + b@);
    }
    sha256_hex(input.as_slice())
}

#[verifier::external_type_specification]
#[verifier::external_body]
pub struct ExRandomError(getrandom::Error);

/// `getrandom::getrandom`: fill `buf` from the system CSPRNG. The buffer keeps
/// its length; what it holds afterwards is random.
#[verifier::external_body]
fn fill_random(buf: &mut Vec<u8>) -> (r: Result<(), getrandom::Error>)
    ensures
        final(buf)@.len() == old(buf)@.len(),
{
    getrandom::getrandom(buf.as_mut_slice())
}

/// Failure to draw a token.
#[derive(Debug, Clone, Copy, PartialEq, Eq)]
pub enum TokenError {
    /// The system CSPRNG is unavailable.
    RandomUnavailable,
}

/// Generate a cryptographically random hex token of `n_bytes` entropy.
pub fn generate_secure_token(n_bytes: usize) -> (t: Result<String, TokenError>)
    ensures
        t matches Ok(s) ==> exists|b: Seq<u8>| b.len() == n_bytes && s@ == crate::hexcodec::hex_encode_spec(b),
{
    let mut buf: Vec<u8> = Vec::new();
    let mut i: usize = 0;
    while i < n_bytes
        invariant
            i <= n_bytes,
            buf@.len() == i,
        decreases n_bytes - i,
    {
        buf.push(0u8);
        i = i + 1;
    }
    match fill_random(&mut buf) {
        Ok(()) => {
            let s = hex_encode(buf.as_slice());
            Ok(s)
        }
        Err(_) => Err(TokenError::RandomUnavailable),
    }
}

/// A refresh-token row as stored.
#[derive(Debug, Clone)]
pub struct AuthTokenRow {
    pub id: String,
    pub username: String,
    pub role: Role,
    pub token_hash: String,
    pub created_at: i64,
    pub expires_at: i64,
    pub created_by: String,
    pub revoked: bool,
    pub revoked_at: Option<i64>,
    pub revoked_by: Option<String>,
}

/// Input for creating a refresh token.
#[derive(Debug, Clone)]
pub struct NewToken {
    pub username: String,
    pub role: Role,
    pub created_by: String,
}

} // verus!
