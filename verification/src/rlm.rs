//! RLM (recursive summary) work queue and cascade decisions.
//!
//! Volunteers claim summary jobs with a lease; a completion is accepted only
//! from the lease holder, for the job's current generation, before the lease
//! expires. Re-enqueueing a subject is idempotent while work is live, and a
//! completed level cascades to its parent (file → theme → project).
use vstd::prelude::*;
use crate::primitives::push_char;
use crate::text::{str_eq, theme_of};

verus! {

/// Review state of a node that never counts as a child of its parent.
pub open spec fn review_rejected() -> Seq<char> {
    seq!['r', 'e', 'j', 'e', 'c', 't', 'e', 'd']
}

/// Whether a volunteer's completion of a claimed job is accepted: it comes
/// from the lease holder, echoes the job's current generation, and arrives
/// before the lease expires.
pub open spec fn completion_valid_spec(
    claimed_by: Option<Seq<char>>,
    worker: Seq<char>,
    stored_generation: i64,
    generation: i64,
    lease_expires_at: Option<i64>,
    now: i64,
) -> bool {
    &&& claimed_by == Some(worker)
    &&& stored_generation == generation
    &&& lease_expires_at matches Some(l) && l >= now
}

/// Decide whether a completion reported at `now` by `worker` for
/// `generation` is accepted for a job claimed by `claimed_by`.
pub fn completion_valid(
    claimed_by: &Option<String>,
    worker: &str,
    stored_generation: i64,
    generation: i64,
    lease_expires_at: Option<i64>,
    now: i64,
) -> (ok: bool)
    ensures
        ok == completion_valid_spec(
            match claimed_by { Some(s) => Some(s@), None => None },
            worker@, stored_generation, generation, lease_expires_at, now,
        ),
{
    let by_worker = match claimed_by {
        Some(by) => str_eq(by.as_str(), worker),
        None => false,
    };
    let live = match lease_expires_at {
        Some(l) => l >= now,
        None => false,
    };
    by_worker && stored_generation == generation && live
}

/// A stale result is never accepted: a completion echoing any generation
/// other than the job's current one (e.g. from a lease that a cancellation
/// or re-enqueue superseded) is rejected, whoever sends it and whenever.
pub proof fn lemma_stale_generation_rejected(
    claimed_by: Option<Seq<char>>,
    worker: Seq<char>,
    stored_generation: i64,
    generation: i64,
    lease_expires_at: Option<i64>,
    now: i64,
)
    requires
        stored_generation != generation,
    ensures
        !completion_valid_spec(claimed_by, worker, stored_generation, generation, lease_expires_at, now),
{
}

/// The lease granted to a claim: at least one second.
pub fn granted_lease_ms(lease_ms: i64) -> (g: i64)
    ensures
        g == if lease_ms < 1000 { 1000 } else { lease_ms },
{
    if lease_ms < 1000 { 1000 } else { lease_ms }
}

/// Lease expiry of a claim made at `now`: `now` plus the granted lease,
/// saturating at the largest timestamp.
pub fn lease_expiry(now: i64, lease_ms: i64) -> (e: i64)
    ensures
        ({
            let g = if lease_ms < 1000 { 1000int } else { lease_ms as int };
            e == if now + g > i64::MAX { i64::MAX as int } else { now + g }
        }),
{
    let g = granted_lease_ms(lease_ms);
    if now > i64::MAX - g { i64::MAX } else { now + g }
}

/// What a failed attempt does to a job.
#[derive(Debug, Clone, Copy, PartialEq, Eq, Structural)]
pub enum FailVerdict {
    /// Back to `pending` for a retry, slightly elevated.
    Retry,
    /// Out of attempts: parked as `failed`.
    Parked,
}

/// A failed attempt parks the job once it has used `max_attempts` attempts,
/// and otherwise returns it to the queue.
pub fn fail_verdict(attempts: i64, max_attempts: i64) -> (v: FailVerdict)
    ensures
        v == (if attempts >= max_attempts { FailVerdict::Parked } else { FailVerdict::Retry }),
{
    if attempts >= max_attempts {
        FailVerdict::Parked
    } else {
        FailVerdict::Retry
    }
}

/// Physical slot rows of a subject fanned out to `quorum_slots` volunteers.
pub fn effective_slots(quorum_slots: usize) -> (s: usize)
    ensures
        s == if quorum_slots == 0 { 1 } else { quorum_slots },
{
    if quorum_slots == 0 { 1 } else { quorum_slots }
}

/// Job key of slot `slot` of a subject fanned out to `slots` rows: the bare
/// logical key for a single slot, `<logical>#<slot>` otherwise.
pub open spec fn slot_key_spec(logical: Seq<char>, slot: nat, slots: nat) -> Seq<char> {
    if slots == 1 {
        logical
    } else {
        logical + seq!['#'] + crate::text::nat_digits(slot)
    }
}

/// Job key of one slot row.
pub fn slot_job_key(logical: &str, slot: usize, slots: usize) -> (k: String)
    ensures
        k@ == slot_key_spec(logical@, slot as nat, slots as nat),
{
    let mut k = logical.to_owned();
    if slots != 1 {
        push_char(&mut k, '#');
        crate::text::push_unsigned(&mut k, slot as u64);
    }
    k
}

/// Distinct slots of a fanned-out subject carry distinct job keys.
pub proof fn lemma_slot_keys_distinct(logical: Seq<char>, s1: nat, s2: nat, slots: nat)
    requires
        s1 != s2,
        slots > 1,
    ensures
        slot_key_spec(logical, s1, slots) != slot_key_spec(logical, s2, slots),
{
    let k1 = slot_key_spec(logical, s1, slots);
    let k2 = slot_key_spec(logical, s2, slots);
    if k1 == k2 {
        let p = logical.len() + 1;
        assert(k1.skip(p as int) =~= crate::text::nat_digits(s1));
        assert(k2.skip(p as int) =~= crate::text::nat_digits(s2));
        crate::text::lemma_int_decimal_injective(s1 as int, s2 as int);
    }
}

/// Volunteers written as exclusions of a new generation group: the given
/// names, skipping empty ones.
pub fn exclusion_names(exclude: &Vec<String>) -> (names: Vec<String>)
    ensures
        names@.map_values(|s: String| s@) == exclude@.map_values(|s: String| s@).filter(|s: Seq<char>| s.len() > 0),
{
    let ghost ex = exclude@.map_values(|s: String| s@);
    let mut names: Vec<String> = Vec::new();
    let mut i: usize = 0;
    while i < exclude.len()
        invariant
            ex == exclude@.map_values(|s: String| s@),
            i <= exclude@.len(),
            names@.map_values(|s: String| s@) == ex.take(i as int).filter(|s: Seq<char>| s.len() > 0),
        decreases exclude@.len() - i,
    {
        let ghost before = names@;
        proof {
            assert(ex.take(i + 1) =~= ex.take(i as int).push(ex[i as int]));
            ex.take(i as int).lemma_filter_push(ex[i as int], |s: Seq<char>| s.len() > 0);
        }
        if exclude[i].as_str().unicode_len() > 0 {
            names.push(exclude[i].clone());
            proof {
                assert(names@.map_values(|s: String| s@) =~= before.map_values(|s: String| s@).push(ex[i as int]));
            }
        }
        i = i + 1;
    }
    proof {
        assert(ex.take(exclude@.len() as int) =~= ex);
    }
    names
}

/// One existing slot row of a subject: `(id, status, generation,
/// generation_group_id)`.
pub type SlotRow = (i64, String, i64, Option<i64>);

/// A slot row still holds live work (`pending` or `claimed`).
pub open spec fn slot_live(status: Seq<char>) -> bool {
    status == seq!['p', 'e', 'n', 'd', 'i', 'n', 'g'] || status == seq!['c', 'l', 'a', 'i', 'm', 'e', 'd']
}

/// The live statuses are exactly `pending` (waiting to be claimed) and
/// `claimed` (leased to a volunteer): both hold work an enqueue must leave
/// alone, and every other status (done, failed, cancelled, ...) does not.
pub proof fn lemma_live_statuses(status: Seq<char>)
    ensures
        slot_live(seq!['p', 'e', 'n', 'd', 'i', 'n', 'g']),
        slot_live(seq!['c', 'l', 'a', 'i', 'm', 'e', 'd']),
        slot_live(status) ==> status == seq!['p', 'e', 'n', 'd', 'i', 'n', 'g'] || status == seq!['c', 'l', 'a', 'i', 'm', 'e', 'd'],
{
}

/// How an enqueue treats a subject.
#[derive(Debug, Clone, Copy, PartialEq, Eq)]
pub enum EnqueuePlan {
    /// A live slot already owns the work: report it, create nothing.
    KeepLive { first_id: i64, generation: i64 },
    /// Every slot finished or was cancelled: recreate the slots at
    /// `generation`, in the existing group (`Some`) or a fresh one (`None`).
    Reset { generation: i64, group: Option<i64> },
    /// No slot exists yet: create the slots at `generation` in a fresh group.
    Fresh { generation: i64 },
}

fn status_is_live(s: &String) -> (r: bool)
    ensures
        r == slot_live(s@),
{
    proof {
        reveal_strlit("pending");
        reveal_strlit("claimed");
        assert("pending"@ =~= seq!['p', 'e', 'n', 'd', 'i', 'n', 'g']);
        assert("claimed"@ =~= seq!['c', 'l', 'a', 'i', 'm', 'e', 'd']);
    }
    str_eq(s.as_str(), "pending") || str_eq(s.as_str(), "claimed")
}

/// Plan an idempotent enqueue from the subject's existing slot rows (in
/// storage order). `excluding` says whether volunteers are excluded from the
/// new slots (a re-fan-out after divergence), which always opens a fresh
/// group and advances the generation.
pub fn enqueue_plan(existing: &Vec<SlotRow>, excluding: bool) -> (p: EnqueuePlan)
    requires
        existing@.len() > 0 && !(exists|i: int| 0 <= i < existing@.len() && slot_live(existing@[i].1@))
            ==> existing@[0].2 < i64::MAX,
    ensures
        existing@.len() == 0 ==> p == (EnqueuePlan::Fresh { generation: if excluding { 1 } else { 0 } }),
        existing@.len() > 0 && (exists|i: int| 0 <= i < existing@.len() && slot_live(existing@[i].1@)) ==>
            p == (EnqueuePlan::KeepLive { first_id: existing@[0].0, generation: existing@[0].2 }),
        (exists|i: int| 0 <= i < existing@.len() && (existing@[i].1@ == seq!['p', 'e', 'n', 'd', 'i', 'n', 'g']
            || existing@[i].1@ == seq!['c', 'l', 'a', 'i', 'm', 'e', 'd'])) ==>
            p == (EnqueuePlan::KeepLive { first_id: existing@[0].0, generation: existing@[0].2 }),
        existing@.len() > 0 && !(exists|i: int| 0 <= i < existing@.len() && slot_live(existing@[i].1@)) ==>
            p == (EnqueuePlan::Reset {
                generation: (existing@[0].2 + 1) as i64,
                group: if excluding {
                    None
                } else {
                    Some(match existing@[0].3 { Some(g) => g, None => existing@[0].0 })
                },
            }),
{
    if existing.len() == 0 {
        return EnqueuePlan::Fresh { generation: if excluding { 1 } else { 0 } };
    }
    let mut live = false;
    let mut i: usize = 0;
    while i < existing.len()
        invariant
            i <= existing@.len(),
            live == exists|j: int| 0 <= j < i && slot_live(existing@[j].1@),
        decreases existing@.len() - i,
    {
        if status_is_live(&existing[i].1) {
            live = true;
        }
        i = i + 1;
    }
    if live {
        return EnqueuePlan::KeepLive { first_id: existing[0].0, generation: existing[0].2 };
    }
    let group = if excluding {
        None
    } else {
        Some(match existing[0].3 {
            Some(g) => g,
            None => existing[0].0,
        })
    };
    EnqueuePlan::Reset { generation: existing[0].2 + 1, group }
}

/// Tally one enqueue of L1 work into `(new_jobs, reset_jobs)`: a created job
/// is new work, a re-enqueue that advanced the generation is a reset.
pub fn tally_enqueue(new_jobs: usize, reset_jobs: usize, created: bool, generation: i64) -> (t: (usize, usize))
    requires
        new_jobs < usize::MAX,
        reset_jobs < usize::MAX,
    ensures
        t == if created {
            ((new_jobs + 1) as usize, reset_jobs)
        } else if generation > 0 {
            (new_jobs, (reset_jobs + 1) as usize)
        } else {
            (new_jobs, reset_jobs)
        },
{
    if created {
        (new_jobs + 1, reset_jobs)
    } else if generation > 0 {
        (new_jobs, reset_jobs + 1)
    } else {
        (new_jobs, reset_jobs)
    }
}

/// Parent of a completed node: file (L1) → its theme (L2), theme (L2) → the
/// project overview (L3); the overview has no parent.
pub fn parent_of(child_level: i64, child_subject: &str, project: &str) -> (p: Option<(i64, String)>)
    ensures
        child_level == 1 ==> (p matches Some((l, s)) && l == 2 && s@ == crate::text::theme_spec(child_subject@)),
        child_level == 2 ==> (p matches Some((l, s)) && l == 3 && s@ == project@),
        child_level != 1 && child_level != 2 ==> p is None,
{
    if child_level == 1 {
        Some((2, theme_of(child_subject)))
    } else if child_level == 2 {
        Some((3, project.to_owned()))
    } else {
        None
    }
}

/// Whether a node at `child_level` counts as a child of `parent_subject`:
/// rejected nodes never do; an L1 file belongs to its theme; every L2 theme
/// belongs to the project overview.
pub fn is_child_of(child_level: i64, node_subject: &str, review_status: &str, parent_subject: &str) -> (c: bool)
    ensures
        c == (review_status@ != review_rejected() && (child_level == 1 ==> crate::text::theme_spec(node_subject@) == parent_subject@)),
{
    proof {
        reveal_strlit("rejected");
        assert("rejected"@ =~= review_rejected());
    }
    if str_eq(review_status, "rejected") {
        return false;
    }
    if child_level == 1 {
        let t = theme_of(node_subject);
        str_eq(t.as_str(), parent_subject)
    } else {
        true
    }
}

/// Whether a cascade rebuilds the parent of a changed child, and whether it
/// first marks the existing parent stale. `parent_stale` is `None` when the
/// parent was never built and its stale flag otherwise; `drifted` says whether
/// the parent's recorded hashes changed beyond the tolerance (consulted only
/// for a fresh parent). Returns `(rebuild, mark_stale)`.
pub fn parent_rebuild(parent_stale: Option<bool>, drifted: bool) -> (r: (bool, bool))
    ensures
        r == match parent_stale {
            None => (true, false),
            Some(true) => (true, false),
            Some(false) => (drifted, drifted),
        },
{
    match parent_stale {
        None => (true, false),
        Some(true) => (true, false),
        Some(false) => (drifted, drifted),
    }
}

/// What a cascade does with the parent's work item.
#[derive(Debug, Clone, Copy, PartialEq, Eq, Structural)]
pub enum CascadeStep {
    /// Nothing to do: no children, no rebuild needed, or a live job already
    /// covers the current inputs.
    Skip,
    /// A live job covers other inputs: cancel it (bumping its generation) and
    /// rewrite its payload.
    Refresh,
    /// No live job: enqueue a new one.
    Enqueue,
}

/// The cascade's step for a parent: `has_children` says whether any
/// non-rejected child belongs to it, `rebuild` whether it must be rebuilt,
/// and `live_job_covers` is `None` without a live job for the parent and
/// otherwise whether that job's hashes equal the children's union.
pub fn cascade_step(has_children: bool, rebuild: bool, live_job_covers: Option<bool>) -> (s: CascadeStep)
    ensures
        !(has_children && rebuild) ==> s == CascadeStep::Skip,
        has_children && rebuild ==> s == match live_job_covers {
            Some(true) => CascadeStep::Skip,
            Some(false) => CascadeStep::Refresh,
            None => CascadeStep::Enqueue,
        },
{
    if !(has_children && rebuild) {
        return CascadeStep::Skip;
    }
    match live_job_covers {
        Some(true) => CascadeStep::Skip,
        Some(false) => CascadeStep::Refresh,
        None => CascadeStep::Enqueue,
    }
}

/// How many of a parent node's recorded source hashes still appear in the
/// union of its children's hashes.
pub fn kept_hashes(node_hashes: &Vec<String>, union: &Vec<String>) -> (k: usize)
    ensures
        k == node_hashes@.map_values(|s: String| s@).filter(|h: Seq<char>| union@.map_values(|s: String| s@).contains(h)).len(),
{
    let ghost nh = node_hashes@.map_values(|s: String| s@);
    let ghost un = union@.map_values(|s: String| s@);
    let mut k: usize = 0;
    let mut i: usize = 0;
    while i < node_hashes.len()
        invariant
            nh == node_hashes@.map_values(|s: String| s@),
            un == union@.map_values(|s: String| s@),
            i <= node_hashes@.len(),
            k == nh.take(i as int).filter(|h: Seq<char>| un.contains(h)).len(),
            k <= i,
        decreases node_hashes@.len() - i,
    {
        proof {
            assert(nh.take(i + 1) =~= nh.take(i as int).push(nh[i as int]));
            nh.take(i as int).lemma_filter_push(nh[i as int], |h: Seq<char>| un.contains(h));
        }
        if contains_str(union, &node_hashes[i]) {
            k = k + 1;
        }
        i = i + 1;
    }
    proof {
        assert(nh.take(node_hashes@.len() as int) =~= nh);
    }
    k
}

fn contains_str(v: &Vec<String>, x: &String) -> (r: bool)
    ensures
        r == v@.map_values(|s: String| s@).contains(x@),
{
    let ghost vv = v@.map_values(|s: String| s@);
    let mut i: usize = 0;
    while i < v.len()
        invariant
            vv == v@.map_values(|s: String| s@),
            i <= v@.len(),
            forall|j: int| 0 <= j < i ==> vv[j] != x@,
        decreases v@.len() - i,
    {
        if v[i] == *x {
            proof {
                assert(vv[i as int] == x@);
            }
            return true;
        }
        i = i + 1;
    }
    false
}

fn count_str(v: &Vec<String>, x: &String) -> (n: usize)
    ensures
        n == v@.map_values(|s: String| s@).to_multiset().count(x@),
{
    let ghost vv = v@.map_values(|s: String| s@);
    broadcast use vstd::seq_lib::group_to_multiset_ensures;
    proof {
        assert(vv.take(0) =~= Seq::<Seq<char>>::empty());
    }
    let mut n: usize = 0;
    let mut i: usize = 0;
    while i < v.len()
        invariant
            vv == v@.map_values(|s: String| s@),
            i <= v@.len(),
            n == vv.take(i as int).to_multiset().count(x@),
            n <= i,
        decreases v@.len() - i,
    {
        proof {
            assert(vv.take(i + 1) =~= vv.take(i as int).push(vv[i as int]));
            vstd::seq_lib::to_multiset_build(vv.take(i as int), vv[i as int]);
            assert(vv[i as int] == v@[i as int]@);
        }
        if v[i] == *x {
            n = n + 1;
        }
        i = i + 1;
    }
    proof {
        assert(vv.take(v@.len() as int) =~= vv);
    }
    n
}

/// Two hash lists hold the same hashes, counting repetitions (order does not
/// matter).
pub fn same_hashes(a: &Vec<String>, b: &Vec<String>) -> (r: bool)
    ensures
        r == (a@.map_values(|s: String| s@).to_multiset() =~= b@.map_values(|s: String| s@).to_multiset()),
{
    let ghost av = a@.map_values(|s: String| s@);
    let ghost bv = b@.map_values(|s: String| s@);
    let mut i: usize = 0;
    while i < a.len()
        invariant
            av == a@.map_values(|s: String| s@),
            bv == b@.map_values(|s: String| s@),
            i <= a@.len(),
            forall|j: int| 0 <= j < i ==> av.to_multiset().count(av[j]) == bv.to_multiset().count(av[j]),
        decreases a@.len() - i,
    {
        let ca = count_str(a, &a[i]);
        let cb = count_str(b, &a[i]);
        proof {
            assert(av[i as int] == a@[i as int]@);
        }
        if ca != cb {
            return false;
        }
        i = i + 1;
    }
    let mut j: usize = 0;
    while j < b.len()
        invariant
            av == a@.map_values(|s: String| s@),
            bv == b@.map_values(|s: String| s@),
            j <= b@.len(),
            forall|t: int| 0 <= t < a@.len() ==> av.to_multiset().count(av[t]) == bv.to_multiset().count(av[t]),
            forall|t: int| 0 <= t < j ==> av.to_multiset().count(bv[t]) == bv.to_multiset().count(bv[t]),
        decreases b@.len() - j,
    {
        let ca = count_str(a, &b[j]);
        let cb = count_str(b, &b[j]);
        proof {
            assert(bv[j as int] == b@[j as int]@);
        }
        if ca != cb {
            return false;
        }
        j = j + 1;
    }
    proof {
        assert forall|x: Seq<char>| av.to_multiset().count(x) == bv.to_multiset().count(x) by {
            vstd::seq_lib::to_multiset_contains(av, x);
            vstd::seq_lib::to_multiset_contains(bv, x);
            if av.contains(x) {
                let t = choose|t: int| 0 <= t < av.len() && av[t] == x;
            } else if bv.contains(x) {
                let t = choose|t: int| 0 <= t < bv.len() && bv[t] == x;
            }
        }
        assert(av.to_multiset() =~= bv.to_multiset());
    }
    true
}

/// An L1 file needs no new summary when its node is fresh and was built from
/// exactly the file's current chunk hashes.
pub fn l1_unchanged(node_stale: bool, node_hashes: &Vec<String>, hashes: &Vec<String>) -> (u: bool)
    ensures
        u == (!node_stale && node_hashes@.map_values(|s: String| s@).to_multiset() =~= hashes@.map_values(|s: String| s@).to_multiset()),
{
    !node_stale && same_hashes(node_hashes, hashes)
}

} // verus!
