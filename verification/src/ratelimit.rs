//! In-memory per-user fixed-window rate limiter.
//!
//! Keyed by authenticated username, gating mutating RPCs. One small bucket is
//! kept per user. When the config is disabled the limiter is a no-op pass.
//! `now` is supplied by the caller (seconds since epoch) so tests can advance a
//! fake clock. Sharing the limiter between threads (a lock around it) is the
//! caller's business: `check` takes the limiter mutably.
use vstd::prelude::*;
use crate::text::str_eq;

verus! {

/// Rate-limit tunables.
#[derive(Debug, Clone, Copy)]
pub struct RateLimitConfig {
    /// Whether limiting is active at all.
    pub enabled: bool,
    /// Requests a user may make per window.
    pub max_requests_per_window: u32,
    /// Window length in seconds.
    pub window_secs: u64,
}

/// One user's request bucket for the current window.
#[derive(Debug, Clone, Copy)]
pub struct Bucket {
    /// Requests admitted in the current window.
    pub count: u32,
    /// Epoch second at which the current window opened.
    pub window_start: u64,
}

/// Fixed-window per-user rate limiter.
pub struct RateLimiter {
    config: RateLimitConfig,
    buckets: Vec<(String, Bucket)>,
}

/// Abstract bucket: `(count, window_start)`.
pub type BucketView = (u32, u64);

/// The bucket a user's request sees at time `now`, before it is counted: a
/// fresh one for an unknown user, a reset one once the window has expired.
pub open spec fn effective_bucket(window_secs: u64, buckets: Map<Seq<char>, BucketView>, user: Seq<char>, now: u64) -> BucketView {
    let b = if buckets.contains_key(user) { buckets[user] } else { (0u32, now) };
    let elapsed = if now >= b.1 { now - b.1 } else { 0 };
    if elapsed >= window_secs { (0u32, now) } else { b }
}

/// Outcome of one `check` call: whether the request is allowed, and the new
/// bucket table.
pub open spec fn check_spec(
    enabled: bool,
    max: u32,
    window_secs: u64,
    buckets: Map<Seq<char>, BucketView>,
    user: Seq<char>,
    now: u64,
) -> (bool, Map<Seq<char>, BucketView>) {
    if !enabled {
        (true, buckets)
    } else {
        let b = effective_bucket(window_secs, buckets, user, now);
        if b.0 >= max {
            (false, buckets.insert(user, b))
        } else {
            (true, buckets.insert(user, ((b.0 + 1) as u32, b.1)))
        }
    }
}

impl RateLimiter {
    /// The configuration the limiter was built with:
    /// `(enabled, max_requests_per_window, window_secs)`.
    pub closed spec fn config_view(&self) -> (bool, u32, u64) {
        (self.config.enabled, self.config.max_requests_per_window, self.config.window_secs)
    }

    /// Current bucket of every user that has been seen.
    pub closed spec fn buckets_view(&self) -> Map<Seq<char>, BucketView> {
        Map::new(
            |k: Seq<char>| exists|i: int| 0 <= i < self.buckets@.len() && self.buckets@[i].0@ == k,
            |k: Seq<char>| {
                let i = choose|i: int| 0 <= i < self.buckets@.len() && self.buckets@[i].0@ == k;
                (self.buckets@[i].1.count, self.buckets@[i].1.window_start)
            },
        )
    }

    /// Each user holds at most one bucket, and (when enabled) no bucket has
    /// admitted more than the window allows.
    pub closed spec fn wf(&self) -> bool {
        &&& forall|i: int, j: int| 0 <= i < j < self.buckets@.len() ==> self.buckets@[i].0@ != self.buckets@[j].0@
        &&& self.config.enabled ==> forall|i: int| 0 <= i < self.buckets@.len()
            ==> self.buckets@[i].1.count <= self.config.max_requests_per_window
    }

    /// Build a limiter from config.
    pub fn new(config: RateLimitConfig) -> (l: Self)
        ensures
            l.wf(),
            l.config_view() == (config.enabled, config.max_requests_per_window, config.window_secs),
            l.buckets_view() == Map::<Seq<char>, BucketView>::empty(),
    {
        let l = RateLimiter { config, buckets: Vec::new() };
        assert(l.buckets_view() =~= Map::<Seq<char>, BucketView>::empty());
        l
    }

    /// Check whether `username` is allowed to make another request at time
    /// `now` (seconds since epoch).
    ///
    /// Returns `true` if allowed. When the config is disabled this always
    /// returns `true`. A denied call does NOT consume a slot (the caller
    /// short-circuits before doing work, so we must not double-count).
    pub fn check(&mut self, username: &str, now: u64) -> (allowed: bool)
        requires
            old(self).wf(),
        ensures
            final(self).wf(),
            final(self).config_view() == old(self).config_view(),
            ({
                let (en, max, win) = old(self).config_view();
                (allowed, final(self).buckets_view()) == check_spec(en, max, win, old(self).buckets_view(), username@, now)
            }),
    {
        let ghost old_map = self.buckets_view();
        if !self.config.enabled {
            return true;
        }
        let ghost user = username@;
        let mut idx: usize = 0;
        let mut found = false;
        while !found && idx < self.buckets.len()
            invariant
                self.buckets@ == old(self).buckets@,
                self.config == old(self).config,
                user == username@,
                idx <= self.buckets@.len(),
                found ==> idx < self.buckets@.len() && self.buckets@[idx as int].0@ == user,
                forall|j: int| 0 <= j < idx ==> self.buckets@[j].0@ != user,
            decreases self.buckets@.len() - idx, (if found { 0int } else { 1int }),
        {
            if str_eq(self.buckets[idx].0.as_str(), username) {
                found = true;
            } else {
                idx = idx + 1;
            }
        }
        proof {
            if found {
                assert(self.buckets@[idx as int].0@ == user);
                assert(old_map.contains_key(user));
                let c = choose|i: int| 0 <= i < self.buckets@.len() && self.buckets@[i].0@ == user;
                assert(c == idx) by {
                    if c < idx {
                    } else if c > idx {
                        assert(self.buckets@[idx as int].0@ != self.buckets@[c].0@);
                    }
                }
                assert(old_map[user] == (self.buckets@[idx as int].1.count, self.buckets@[idx as int].1.window_start));
            } else {
                assert(!old_map.contains_key(user));
            }
        }
        let (mut count, mut start) = if found {
            (self.buckets[idx].1.count, self.buckets[idx].1.window_start)
        } else {
            (0u32, now)
        };
        if now.saturating_sub(start) >= self.config.window_secs {
            count = 0;
            start = now;
        }
        let allowed = count < self.config.max_requests_per_window;
        let new_count = if allowed { count + 1 } else { count };
        let ghost before = self.buckets@;
        if found {
            self.buckets.set(idx, (username.to_owned(), Bucket { count: new_count, window_start: start }));
        } else {
            self.buckets.push((username.to_owned(), Bucket { count: new_count, window_start: start }));
        }
        proof {
            let target = (new_count, start);
            let new_map = self.buckets_view();
            assert(new_map =~= old_map.insert(user, target)) by {
                assert forall|k: Seq<char>| #[trigger] new_map.contains_key(k) <==> old_map.insert(user, target).contains_key(k) by {
                    if k != user && old_map.contains_key(k) {
                        let i = choose|i: int| 0 <= i < before.len() && before[i].0@ == k;
                        assert(self.buckets@[i].0@ == k);
                    }
                    if new_map.contains_key(k) && k != user {
                        let i = choose|i: int| 0 <= i < self.buckets@.len() && self.buckets@[i].0@ == k;
                        assert(before[i].0@ == k);
                    }
                    if k == user {
                        let last = if found { idx as int } else { before.len() as int };
                        assert(self.buckets@[last].0@ == user);
                    }
                }
                assert forall|k: Seq<char>| new_map.contains_key(k) implies #[trigger] new_map[k] == old_map.insert(user, target)[k] by {
                    let i = choose|i: int| 0 <= i < self.buckets@.len() && self.buckets@[i].0@ == k;
                    if k == user {
                        let last = if found { idx as int } else { before.len() as int };
                        assert(self.buckets@[last].0@ == user);
                        if i != last {
                            if found {
                                assert(before[i].0@ == k);
                            } else {
                                assert(before[i].0@ == k);
                            }
                        }
                    } else {
                        assert(before[i].0@ == k);
                        let j = choose|j: int| 0 <= j < before.len() && before[j].0@ == k;
                        if i != j {
                            assert(before[i].0@ == before[j].0@);
                        }
                    }
                }
            }
            assert(self.wf()) by {
                assert forall|i: int, j: int| 0 <= i < j < self.buckets@.len() implies self.buckets@[i].0@ != self.buckets@[j].0@ by {
                    if found {
                        if i == idx {
                            assert(before[j].0@ != user);
                        } else if j == idx {
                            assert(before[i].0@ != user);
                        }
                    } else if j == before.len() {
                        assert(before[i].0@ != user);
                    }
                }
            }
        }
        allowed
    }
}

/// A disabled limiter admits every request and keeps no state.
pub proof fn lemma_disabled_always_passes(max: u32, window_secs: u64, buckets: Map<Seq<char>, BucketView>, user: Seq<char>, now: u64)
    ensures
        check_spec(false, max, window_secs, buckets, user, now) == (true, buckets),
{
}

/// A denied request does not consume a slot: the user's count stays where
/// the window had it, and the denial only happens once the window's budget is
/// spent.
pub proof fn lemma_denial_consumes_nothing(max: u32, window_secs: u64, buckets: Map<Seq<char>, BucketView>, user: Seq<char>, now: u64)
    ensures
        ({
            let (allowed, after) = check_spec(true, max, window_secs, buckets, user, now);
            let b = effective_bucket(window_secs, buckets, user, now);
            !allowed ==> after[user] == b && b.0 >= max
        }),
{
}

/// An admitted request counts exactly once against its user's window, and
/// the count never exceeds the per-window budget.
pub proof fn lemma_admission_counts_once(max: u32, window_secs: u64, buckets: Map<Seq<char>, BucketView>, user: Seq<char>, now: u64)
    ensures
        ({
            let (allowed, after) = check_spec(true, max, window_secs, buckets, user, now);
            let b = effective_bucket(window_secs, buckets, user, now);
            allowed ==> after[user] == ((b.0 + 1) as u32, b.1) && after[user].0 <= max
        }),
{
}

/// Buckets are per user: a request never changes another user's bucket.
pub proof fn lemma_other_users_untouched(
    enabled: bool,
    max: u32,
    window_secs: u64,
    buckets: Map<Seq<char>, BucketView>,
    user: Seq<char>,
    other: Seq<char>,
    now: u64,
)
    requires
        other != user,
    ensures
        ({
            let after = check_spec(enabled, max, window_secs, buckets, user, now).1;
            &&& after.contains_key(other) == buckets.contains_key(other)
            &&& buckets.contains_key(other) ==> after[other] == buckets[other]
        }),
{
}

/// Once a user's window has expired the budget is fresh again: with a
/// positive budget the next request is admitted and opens a new window.
pub proof fn lemma_window_expiry_resets(max: u32, window_secs: u64, buckets: Map<Seq<char>, BucketView>, user: Seq<char>, now: u64)
    requires
        max > 0,
        buckets.contains_key(user),
        now >= buckets[user].1,
        now - buckets[user].1 >= window_secs,
    ensures
        check_spec(true, max, window_secs, buckets, user, now) == (true, buckets.insert(user, (1u32, now))),
{
}

} // verus!
