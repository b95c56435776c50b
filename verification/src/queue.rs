//! Re-digest queue and answer-cache upkeep decisions: QA leases, the
//! weighted-LRU eviction budget, and which cached answers went stale.
use vstd::prelude::*;

verus! {

/// Default lease duration for a claimed re-digest job, in seconds.
pub const DEFAULT_PENDING_QA_LEASE_SECS: i64 = 300;

/// Lease expiry of a QA re-digest claim made at `now` (epoch seconds): `now`
/// plus the lease (at least one second), saturating at the largest
/// timestamp.
pub fn qa_lease_expiry(now: i64, lease_secs: i64) -> (e: i64)
    ensures
        ({
            let g = if lease_secs < 1 { 1int } else { lease_secs as int };
            e == if now + g > i64::MAX { i64::MAX as int } else if now + g < i64::MIN { i64::MIN as int } else { now + g }
        }),
{
    let g: i64 = if lease_secs < 1 { 1 } else { lease_secs };
    if now > i64::MAX - g { i64::MAX } else { now + g }
}

/// Counts of re-digest jobs after a reclaim pass.
pub fn pending_qa_counts(pending: i64, leased: i64, completed: i64, expired: usize) -> (c: crate::rows::PendingQaCounts)
    ensures
        c.pending == pending as u64,
        c.leased == leased as u64,
        c.completed == completed as u64,
        c.expired == expired as u64,
{
    crate::rows::PendingQaCounts {
        pending: pending as u64,
        leased: leased as u64,
        completed: completed as u64,
        expired: expired as u64,
    }
}

/// How many of a project's `count` live answers the weighted-LRU eviction
/// removes to stay within `max_entries`: none when the cap is zero (a zero
/// cap would purge everything) or not exceeded, otherwise the excess.
pub fn eviction_excess(max_entries: usize, count: i64) -> (n: i64)
    ensures
        ({
            let cap: int = if max_entries as int > i64::MAX { i64::MAX as int } else { max_entries as int };
            n == if max_entries == 0 || count <= cap { 0 } else { count - cap }
        }),
{
    if max_entries == 0 {
        return 0;
    }
    let cap: i64 = if max_entries as u64 > i64::MAX as u64 { i64::MAX } else { max_entries as i64 };
    if count <= cap {
        0
    } else {
        count - cap
    }
}

/// Decay constant of the eviction score, in milliseconds (at least one).
pub fn eviction_lambda(lambda_ms: i64) -> (l: i64)
    ensures
        l == if lambda_ms <= 0 { 1 } else { lambda_ms },
{
    if lambda_ms <= 0 { 1 } else { lambda_ms }
}

/// A cached answer is stale once one of its source hashes no longer belongs
/// to the buffer's current chunks.
pub fn has_missing_hash(hashes: &Vec<String>, current: &Vec<String>) -> (m: bool)
    ensures
        m == exists|i: int| 0 <= i < hashes@.len() && !crate::lexical::views(current@).contains(#[trigger] hashes@[i]@),
{
    let ghost cv = crate::lexical::views(current@);
    let mut i: usize = 0;
    while i < hashes.len()
        invariant
            cv == crate::lexical::views(current@),
            i <= hashes@.len(),
            forall|j: int| 0 <= j < i ==> cv.contains(#[trigger] hashes@[j]@),
        decreases hashes@.len() - i,
    {
        let mut found = false;
        let mut j: usize = 0;
        while j < current.len()
            invariant
                cv == crate::lexical::views(current@),
                i < hashes@.len(),
                j <= current@.len(),
                found == exists|t: int| 0 <= t < j && cv[t] == hashes@[i as int]@,
            decreases current@.len() - j,
        {
            proof {
                assert(cv[j as int] == current@[j as int]@);
            }
            if current[j] == hashes[i] {
                found = true;
            }
            j = j + 1;
        }
        if !found {
            proof {
                assert(!cv.contains(hashes@[i as int]@));
            }
            return true;
        }
        i = i + 1;
    }
    false
}

/// Sorted, de-duplicated union of the children's source hashes: the
/// fingerprint a parent summary is expected to cover.
pub fn hash_union(children: &Vec<Vec<String>>) -> (u: Vec<String>)
    ensures
        crate::lexical::strictly_sorted(crate::lexical::views(u@)),
        forall|h: Seq<char>| #[trigger] crate::lexical::views(u@).contains(h) <==>
            exists|c: int, k: int| 0 <= c < children@.len() && 0 <= k < children@[c]@.len() && children@[c]@[k]@ == h,
{
    let mut all: Vec<String> = Vec::new();
    let mut c: usize = 0;
    while c < children.len()
        invariant
            c <= children@.len(),
            forall|h: Seq<char>| #[trigger] crate::lexical::views(all@).contains(h) <==>
                exists|x: int, k: int| 0 <= x < c && 0 <= k < children@[x]@.len() && children@[x]@[k]@ == h,
        decreases children@.len() - c,
    {
        let mut k: usize = 0;
        while k < children[c].len()
            invariant
                c < children@.len(),
                k <= children@[c as int]@.len(),
                forall|h: Seq<char>| #[trigger] crate::lexical::views(all@).contains(h) <==>
                    (exists|x: int, t: int| 0 <= x < c && 0 <= t < children@[x]@.len() && children@[x]@[t]@ == h)
                    || (exists|t: int| 0 <= t < k && children@[c as int]@[t]@ == h),
            decreases children@[c as int]@.len() - k,
        {
            let ghost before = crate::lexical::views(all@);
            all.push(children[c][k].clone());
            proof {
                let nv = crate::lexical::views(all@);
                assert(nv =~= before.push(children@[c as int]@[k as int]@));
                assert forall|h: Seq<char>| #[trigger] nv.contains(h) <==>
                    (exists|x: int, t: int| 0 <= x < c && 0 <= t < children@[x]@.len() && children@[x]@[t]@ == h)
                    || (exists|t: int| 0 <= t < k + 1 && children@[c as int]@[t]@ == h) by {
                    if nv.contains(h) {
                        let i = choose|i: int| 0 <= i < nv.len() && nv[i] == h;
                        if i < before.len() {
                            assert(before[i] == h);
                            assert(before.contains(h));
                        }
                    }
                    if exists|t: int| 0 <= t < k + 1 && children@[c as int]@[t]@ == h {
                        let t = choose|t: int| 0 <= t < k + 1 && children@[c as int]@[t]@ == h;
                        if t == k {
                            assert(nv[nv.len() - 1] == h);
                        } else {
                            assert(before.contains(h));
                            let i = choose|i: int| 0 <= i < before.len() && before[i] == h;
                            assert(nv[i] == h);
                        }
                    }
                    if exists|x: int, t: int| 0 <= x < c && 0 <= t < children@[x]@.len() && children@[x]@[t]@ == h {
                        assert(before.contains(h));
                        let i = choose|i: int| 0 <= i < before.len() && before[i] == h;
                        assert(nv[i] == h);
                    }
                }
            }
            k = k + 1;
        }
        proof {
            assert forall|h: Seq<char>| #[trigger] crate::lexical::views(all@).contains(h) <==>
                exists|x: int, t: int| 0 <= x < c + 1 && 0 <= t < children@[x]@.len() && children@[x]@[t]@ == h by {
                if exists|x: int, t: int| 0 <= x < c + 1 && 0 <= t < children@[x]@.len() && children@[x]@[t]@ == h {
                    let (x, t) = choose|x: int, t: int| 0 <= x < c + 1 && 0 <= t < children@[x]@.len() && children@[x]@[t]@ == h;
                    if x == c {
                        assert(exists|t: int| 0 <= t < k && children@[c as int]@[t]@ == h);
                    }
                }
            }
        }
        c = c + 1;
    }
    let u = crate::lexical::sort_dedup(&all);
    proof {
        let av = crate::lexical::views(all@);
        let uv = crate::lexical::views(u@);
        assert forall|h: Seq<char>| #[trigger] uv.contains(h) <==> av.contains(h) by {
            assert(uv.to_set().contains(h) == av.to_set().contains(h));
        }
    }
    u
}


/// ASCII case folding of one character.
pub open spec fn ascii_lower(c: char) -> char {
    if 'A' <= c && c <= 'Z' { (((c as u32) + 32) as u8) as char } else { c }
}

/// Equal up to ASCII case, as `str::eq_ignore_ascii_case` compares.
pub open spec fn eq_ignore_ascii_case_spec(a: Seq<char>, b: Seq<char>) -> bool {
    a.len() == b.len() && forall|i: int| 0 <= i < a.len() ==> ascii_lower(a[i]) == ascii_lower(b[i])
}

fn lower_char(c: char) -> (r: char)
    ensures
        r == ascii_lower(c),
{
    if 'A' <= c && c <= 'Z' {
        (((c as u32) + 32) as u8) as char
    } else {
        c
    }
}

/// Whether two strings are equal up to ASCII case.
pub fn eq_ignore_ascii_case(a: &str, b: &str) -> (r: bool)
    ensures
        r == eq_ignore_ascii_case_spec(a@, b@),
{
    let n = a.unicode_len();
    let m = b.unicode_len();
    if n != m {
        return false;
    }
    let mut i: usize = 0;
    while i < n
        invariant
            n == a@.len(),
            m == b@.len(),
            n == m,
            i <= n,
            forall|j: int| 0 <= j < i ==> ascii_lower(a@[j]) == ascii_lower(b@[j]),
        decreases n - i,
    {
        if lower_char(a.get_char(i)) != lower_char(b.get_char(i)) {
            return false;
        }
        i = i + 1;
    }
    true
}

/// The stored hash of chunk `id` exists and equals `expected` up to ASCII
/// case.
pub open spec fn pair_matches(current: Seq<(i64, String)>, id: i64, expected: Seq<char>) -> bool {
    exists|c: int| 0 <= c < current.len() && current[c].0 == id && eq_ignore_ascii_case_spec(current[c].1@, expected)
}

/// Every `(chunk_id, expected_hash)` pair still matches the stored hash of
/// that chunk (`current`: the stored `(id, hex hash)` of the chunks that still
/// exist, one entry per id); a vanished chunk counts as drift.
pub fn hashes_match(pairs: &Vec<(i64, String)>, current: &Vec<(i64, String)>) -> (ok: bool)
    requires
        forall|a: int, b: int| 0 <= a < b < current@.len() ==> current@[a].0 != current@[b].0,
    ensures
        ok == forall|p: int| 0 <= p < pairs@.len() ==> #[trigger] pair_matches(current@, pairs@[p].0, pairs@[p].1@),
{
    let mut p: usize = 0;
    while p < pairs.len()
        invariant
            p <= pairs@.len(),
            forall|a: int, b: int| 0 <= a < b < current@.len() ==> current@[a].0 != current@[b].0,
            forall|q: int| 0 <= q < p ==> #[trigger] pair_matches(current@, pairs@[q].0, pairs@[q].1@),
        decreases pairs@.len() - p,
    {
        let id = pairs[p].0;
        let mut c: usize = 0;
        let mut found: Option<usize> = None;
        while c < current.len()
            invariant
                c <= current@.len(),
                match found {
                    Some(k) => k < c && current@[k as int].0 == id,
                    None => forall|t: int| 0 <= t < c ==> current@[t].0 != id,
                },
            decreases current@.len() - c,
        {
            if current[c].0 == id {
                found = Some(c);
            }
            c = c + 1;
        }
        match found {
            Some(k) => {
                if !eq_ignore_ascii_case(current[k].1.as_str(), pairs[p].1.as_str()) {
                    proof {
                        assert(!pair_matches(current@, pairs@[p as int].0, pairs@[p as int].1@)) by {
                            if pair_matches(current@, pairs@[p as int].0, pairs@[p as int].1@) {
                                let t = choose|t: int| 0 <= t < current@.len() && current@[t].0 == pairs@[p as int].0
                                    && eq_ignore_ascii_case_spec(current@[t].1@, pairs@[p as int].1@);
                                if t != k {
                                    assert(current@[t].0 == current@[k as int].0);
                                }
                            }
                        }
                    }
                    return false;
                }
                proof {
                    assert(pair_matches(current@, pairs@[p as int].0, pairs@[p as int].1@));
                }
            }
            None => {
                proof {
                    assert(!pair_matches(current@, pairs@[p as int].0, pairs@[p as int].1@));
                }
                return false;
            }
        }
        p = p + 1;
    }
    true
}

} // verus!
