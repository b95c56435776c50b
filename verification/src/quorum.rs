//! RLM cosine-quorum decision engine.
//!
//! A subject fanned out to `n` volunteer slots is decided once `n` candidates
//! are gathered. The similarities between candidates are floating-point
//! cosines computed outside this crate; here they are represented by
//! order-preserving integer codes (`rank[a][b]` compares exactly as the cosine
//! of candidates `a` and `b`, and `agree[a][b]` says whether that cosine meets
//! the quorum threshold). Every decision the engine takes depends only on those
//! comparisons, so it is decided here exactly.
use vstd::prelude::*;

verus! {

/// Outcome of a quorum decision for one RLM subject.
#[derive(Debug, Clone, PartialEq)]
pub enum QuorumDecision {
    /// Fewer than `n` candidates gathered yet — defer.
    Pending,
    /// A consensus was reached and published.
    Accepted {
        /// Fused summary text published as the live RLM node.
        fused_text: String,
        /// Row ids of the submissions that formed the consensus.
        accepted_submission_ids: Vec<i64>,
        /// Row ids of the dissenting submissions (rejected + struck).
        rejected_submission_ids: Vec<i64>,
    },
    /// No two candidates agreed; all rejected, subject left for review.
    Rejected {
        /// Row ids of every rejected submission.
        rejected_submission_ids: Vec<i64>,
    },
}

// ---------------------------------------------------------------------------
// Byzantine bound
// ---------------------------------------------------------------------------

/// Smallest agreeing set that counts as a quorum for `n` slots: `2f + 1` with
/// `f = floor((n - 1) / 3)` tolerated byzantine volunteers.
pub open spec fn min_clique_spec(n: nat) -> nat {
    2 * ((if n >= 1 { n - 1 } else { 0int }) as nat / 3) + 1
}

/// Minimum size of an agreeing clique for `n` volunteer slots (`2f + 1`).
pub fn byzantine_min_clique(n: usize) -> (m: usize)
    ensures
        m == min_clique_spec(n as nat),
{
    let f = n.saturating_sub(1) / 3;
    2 * f + 1
}

// ---------------------------------------------------------------------------
// Largest agreeing clique
// ---------------------------------------------------------------------------

/// Whether candidate `i` belongs to the subset encoded by `mask`.
pub open spec fn in_mask(mask: u32, i: nat) -> bool {
    mask & (1u32 << (i as u32)) != 0u32
}

/// Members of the subset `mask` among the first `k` candidates, ascending.
pub open spec fn mask_members(mask: u32, k: nat) -> Seq<usize>
    decreases k,
{
    if k == 0 {
        Seq::empty()
    } else {
        let prev = mask_members(mask, (k - 1) as nat);
        if in_mask(mask, (k - 1) as nat) {
            prev.push((k - 1) as usize)
        } else {
            prev
        }
    }
}

/// Every pair of members agrees (similarity at or above the threshold).
pub open spec fn members_agree(agree: Seq<Seq<bool>>, ms: Seq<usize>) -> bool {
    forall|a: int, b: int|
        0 <= a < b < ms.len() ==> #[trigger] agree[ms[a] as int][ms[b] as int]
}

/// `v` is the lowest pairwise similarity code among the members.
pub open spec fn is_min_rank(rank: Seq<Seq<u64>>, ms: Seq<usize>, v: u64) -> bool {
    &&& exists|a: int, b: int|
        0 <= a < b < ms.len() && #[trigger] rank[ms[a] as int][ms[b] as int] == v
    &&& forall|a: int, b: int|
        0 <= a < b < ms.len() ==> v <= #[trigger] rank[ms[a] as int][ms[b] as int]
}

/// The lowest pairwise similarity code among the members.
pub open spec fn min_rank(rank: Seq<Seq<u64>>, ms: Seq<usize>) -> u64 {
    choose|v: u64| is_min_rank(rank, ms, v)
}

/// `mask` encodes an agreeing subset of at least two of the `n` candidates.
pub open spec fn is_candidate_clique(agree: Seq<Seq<bool>>, n: nat, mask: u32) -> bool {
    &&& 1 <= mask
    &&& mask < (1u32 << (n as u32))
    &&& mask_members(mask, n).len() >= 2
    &&& members_agree(agree, mask_members(mask, n))
}

/// Clique `m1` is strictly preferred over `m2`: larger, or as large with a
/// higher minimum in-clique similarity (denser agreement).
pub open spec fn strictly_better(rank: Seq<Seq<u64>>, n: nat, m1: u32, m2: u32) -> bool {
    let s1 = mask_members(m1, n);
    let s2 = mask_members(m2, n);
    ||| s1.len() > s2.len()
    ||| (s1.len() == s2.len() && min_rank(rank, s1) > min_rank(rank, s2))
}

/// The agreement and similarity matrices are square over `n` candidates.
pub open spec fn square(agree: Seq<Seq<bool>>, rank: Seq<Seq<u64>>, n: nat) -> bool {
    &&& agree.len() == n
    &&& rank.len() == n
    &&& forall|i: int| 0 <= i < n ==> (#[trigger] agree[i]).len() == n
    &&& forall|i: int| 0 <= i < n ==> (#[trigger] rank[i]).len() == n
}

/// The clique the quorum engine selects: the first subset (in mask order) that
/// no other agreeing subset strictly beats.
pub open spec fn is_selected_clique(agree: Seq<Seq<bool>>, rank: Seq<Seq<u64>>, n: nat, m: u32) -> bool {
    &&& is_candidate_clique(agree, n, m)
    &&& forall|m2: u32| #[trigger] is_candidate_clique(agree, n, m2) ==> !strictly_better(rank, n, m2, m)
    &&& forall|m2: u32| m2 < m && #[trigger] is_candidate_clique(agree, n, m2) ==> strictly_better(rank, n, m, m2)
}

proof fn lemma_mask_members_props(mask: u32, k: nat)
    requires
        k < 32,
    ensures
        mask_members(mask, k).len() <= k,
        forall|a: int| 0 <= a < mask_members(mask, k).len() ==> mask_members(mask, k)[a] < k,
        forall|a: int, b: int| 0 <= a < b < mask_members(mask, k).len() ==>
            mask_members(mask, k)[a] < mask_members(mask, k)[b],
    decreases k,
{
    if k > 0 {
        lemma_mask_members_props(mask, (k - 1) as nat);
        let prev = mask_members(mask, (k - 1) as nat);
        if in_mask(mask, (k - 1) as nat) {
            let cur = prev.push((k - 1) as usize);
            assert forall|a: int, b: int| 0 <= a < b < cur.len() implies cur[a] < cur[b] by {
                if b == cur.len() - 1 {
                    assert(cur[a] == prev[a]);
                } else {
                    assert(cur[a] == prev[a] && cur[b] == prev[b]);
                }
            }
        }
    }
}

proof fn lemma_min_rank(rank: Seq<Seq<u64>>, ms: Seq<usize>, v: u64)
    requires
        is_min_rank(rank, ms, v),
    ensures
        min_rank(rank, ms) == v,
{
    let w = min_rank(rank, ms);
    assert(is_min_rank(rank, ms, w));
    let (a, b) = choose|a: int, b: int| 0 <= a < b < ms.len() && #[trigger] rank[ms[a] as int][ms[b] as int] == v;
    let (c, d) = choose|a: int, b: int| 0 <= a < b < ms.len() && #[trigger] rank[ms[a] as int][ms[b] as int] == w;
    assert(w <= rank[ms[a] as int][ms[b] as int]);
    assert(v <= rank[ms[c] as int][ms[d] as int]);
}

/// Lowest of `rank[ms[a]][ms[j]]` over `a < k`.
spec fn col_min(rank: Seq<Seq<u64>>, ms: Seq<usize>, j: int, k: nat) -> u64
    decreases k,
{
    if k <= 1 {
        rank[ms[0] as int][ms[j] as int]
    } else {
        let m = col_min(rank, ms, j, (k - 1) as nat);
        let x = rank[ms[k - 1] as int][ms[j] as int];
        if x < m { x } else { m }
    }
}

proof fn lemma_col_min(rank: Seq<Seq<u64>>, ms: Seq<usize>, j: int, k: nat)
    requires
        1 <= k <= j < ms.len(),
    ensures
        exists|a: int| 0 <= a < k && #[trigger] rank[ms[a] as int][ms[j] as int] == col_min(rank, ms, j, k),
        forall|a: int| 0 <= a < k ==> col_min(rank, ms, j, k) <= #[trigger] rank[ms[a] as int][ms[j] as int],
    decreases k,
{
    if k > 1 {
        lemma_col_min(rank, ms, j, (k - 1) as nat);
        let x = rank[ms[k - 1] as int][ms[j] as int];
        if x < col_min(rank, ms, j, (k - 1) as nat) {
            assert(rank[ms[(k - 1) as int] as int][ms[j] as int] == col_min(rank, ms, j, k));
        }
    } else {
        assert(rank[ms[0] as int][ms[j] as int] == col_min(rank, ms, j, k));
    }
}

/// Lowest pairwise code over the pairs `a < b < n` of `ms`.
spec fn pair_min(rank: Seq<Seq<u64>>, ms: Seq<usize>, n: nat) -> u64
    decreases n,
{
    if n <= 2 {
        col_min(rank, ms, 1, 1)
    } else {
        let m = pair_min(rank, ms, (n - 1) as nat);
        let x = col_min(rank, ms, n - 1, (n - 1) as nat);
        if x < m { x } else { m }
    }
}

proof fn lemma_pair_min(rank: Seq<Seq<u64>>, ms: Seq<usize>, n: nat)
    requires
        2 <= n <= ms.len(),
    ensures
        exists|a: int, b: int| 0 <= a < b < n && #[trigger] rank[ms[a] as int][ms[b] as int] == pair_min(rank, ms, n),
        forall|a: int, b: int| 0 <= a < b < n ==> pair_min(rank, ms, n) <= #[trigger] rank[ms[a] as int][ms[b] as int],
    decreases n,
{
    if n <= 2 {
        lemma_col_min(rank, ms, 1, 1);
        assert(rank[ms[0] as int][ms[1] as int] == pair_min(rank, ms, n));
    } else {
        lemma_pair_min(rank, ms, (n - 1) as nat);
        lemma_col_min(rank, ms, n - 1, (n - 1) as nat);
        let x = col_min(rank, ms, n - 1, (n - 1) as nat);
        assert forall|a: int, b: int| 0 <= a < b < n implies pair_min(rank, ms, n) <= #[trigger] rank[ms[a] as int][ms[b] as int] by {
            if b == n - 1 {
                assert(x <= rank[ms[a] as int][ms[n - 1] as int]);
            } else {
                assert(pair_min(rank, ms, (n - 1) as nat) <= rank[ms[a] as int][ms[b] as int]);
            }
        }
        if x < pair_min(rank, ms, (n - 1) as nat) {
            let a = choose|a: int| 0 <= a < n - 1 && #[trigger] rank[ms[a] as int][ms[n - 1] as int] == x;
            assert(rank[ms[a] as int][ms[n - 1] as int] == pair_min(rank, ms, n));
        } else {
            let (a, b) = choose|a: int, b: int| 0 <= a < b < n - 1 && #[trigger] rank[ms[a] as int][ms[b] as int] == pair_min(rank, ms, (n - 1) as nat);
            assert(rank[ms[a] as int][ms[b] as int] == pair_min(rank, ms, n));
        }
    }
}

/// The similarity a clique is ranked by is its weakest pair: no greater than
/// any pairwise similarity code among its members, and equal to one of them.
pub proof fn lemma_min_rank_is_weakest_pair(rank: Seq<Seq<u64>>, ms: Seq<usize>)
    requires
        ms.len() >= 2,
    ensures
        forall|a: int, b: int| 0 <= a < b < ms.len() ==> min_rank(rank, ms) <= #[trigger] rank[ms[a] as int][ms[b] as int],
        exists|a: int, b: int| 0 <= a < b < ms.len() && #[trigger] rank[ms[a] as int][ms[b] as int] == min_rank(rank, ms),
{
    lemma_pair_min(rank, ms, ms.len());
    assert(is_min_rank(rank, ms, pair_min(rank, ms, ms.len())));
    lemma_min_rank(rank, ms, pair_min(rank, ms, ms.len()));
}

/// The pair `(i, j)` is no more similar than any pair of `ms`.
pub open spec fn weakest_against(rank: Seq<Seq<u64>>, i: usize, j: usize, ms: Seq<usize>) -> bool {
    forall|x: int, y: int| 0 <= x < y < ms.len() ==> rank[i as int][j as int] <= #[trigger] rank[ms[x] as int][ms[y] as int]
}

/// The selected clique is as large as any agreeing subset, and against any
/// agreeing subset of its size it has the stronger weakest pair: that subset
/// holds a pair no more similar than every pair of the selected clique.
pub proof fn lemma_selected_clique_is_largest_then_densest(
    agree: Seq<Seq<bool>>,
    rank: Seq<Seq<u64>>,
    n: nat,
    m: u32,
    m2: u32,
)
    requires
        is_selected_clique(agree, rank, n, m),
        is_candidate_clique(agree, n, m2),
    ensures
        mask_members(m2, n).len() <= mask_members(m, n).len(),
        mask_members(m2, n).len() == mask_members(m, n).len() ==> exists|a: int, b: int|
            0 <= a < b < mask_members(m2, n).len() && #[trigger] weakest_against(rank, mask_members(m2, n)[a], mask_members(m2, n)[b], mask_members(m, n)),
{
    let s1 = mask_members(m, n);
    let s2 = mask_members(m2, n);
    assert(!strictly_better(rank, n, m2, m));
    if s2.len() == s1.len() {
        lemma_min_rank_is_weakest_pair(rank, s1);
        lemma_min_rank_is_weakest_pair(rank, s2);
        let (a, b) = choose|a: int, b: int| 0 <= a < b < s2.len() && #[trigger] rank[s2[a] as int][s2[b] as int] == min_rank(rank, s2);
        assert forall|x: int, y: int| 0 <= x < y < s1.len() implies
            rank[s2[a] as int][s2[b] as int] <= #[trigger] rank[s1[x] as int][s1[y] as int] by {
            assert(min_rank(rank, s1) <= rank[s1[x] as int][s1[y] as int]);
        }
        assert(weakest_against(rank, s2[a], s2[b], s1));
    }
}

/// Members of `mask` among the `n` candidates, in ascending order.
fn members_of(mask: u32, n: usize) -> (ms: Vec<usize>)
    requires
        n < 32,
    ensures
        ms@ == mask_members(mask, n as nat),
{
    let mut ms: Vec<usize> = Vec::new();
    let mut i: usize = 0;
    while i < n
        invariant
            i <= n < 32,
            ms@ == mask_members(mask, i as nat),
        decreases n - i,
    {
        if mask & (1u32 << (i as u32)) != 0 {
            ms.push(i);
        }
        i = i + 1;
    }
    ms
}

/// Whether every pair of `ms` agrees, and the lowest similarity code among
/// its pairs (`u64::MAX` when it has no pair).
fn scan_pairs(agree: &Vec<Vec<bool>>, rank: &Vec<Vec<u64>>, ms: &Vec<usize>) -> (res: (bool, u64))
    requires
        square(agree@.map_values(|r: Vec<bool>| r@), rank@.map_values(|r: Vec<u64>| r@), agree@.len() as nat),
        forall|a: int| 0 <= a < ms@.len() ==> ms@[a] < agree@.len(),
    ensures
        res.0 == members_agree(agree@.map_values(|r: Vec<bool>| r@), ms@),
        ms@.len() >= 2 ==> is_min_rank(rank@.map_values(|r: Vec<u64>| r@), ms@, res.1),
{
    let ghost ag = agree@.map_values(|r: Vec<bool>| r@);
    let ghost rk = rank@.map_values(|r: Vec<u64>| r@);
    let mut ok = true;
    let mut min_sim: u64 = u64::MAX;
    let ghost mut has_pair = false;
    let len = ms.len();
    let mut a: usize = 0;
    while a < len
        invariant
            len == ms@.len(),
            a <= len,
            ag == agree@.map_values(|r: Vec<bool>| r@),
            rk == rank@.map_values(|r: Vec<u64>| r@),
            square(ag, rk, agree@.len() as nat),
            forall|x: int| 0 <= x < ms@.len() ==> ms@[x] < agree@.len(),
            ok == (forall|x: int, y: int| 0 <= x < y < len && x < a ==> #[trigger] ag[ms@[x] as int][ms@[y] as int]),
            forall|x: int, y: int| 0 <= x < y < len && x < a ==> min_sim <= #[trigger] rk[ms@[x] as int][ms@[y] as int],
            has_pair ==> exists|x: int, y: int| 0 <= x < y < len && x < a && #[trigger] rk[ms@[x] as int][ms@[y] as int] == min_sim,
            !has_pair ==> min_sim == u64::MAX,
            (a >= 1 && len >= 2) ==> has_pair,
        decreases len - a,
    {
        let mut b: usize = a + 1;
        while b < len
            invariant
                len == ms@.len(),
                a < len,
                a + 1 <= b <= len,
                ag == agree@.map_values(|r: Vec<bool>| r@),
                rk == rank@.map_values(|r: Vec<u64>| r@),
                square(ag, rk, agree@.len() as nat),
                forall|x: int| 0 <= x < ms@.len() ==> ms@[x] < agree@.len(),
                ok == (forall|x: int, y: int| 0 <= x < y < len && (x < a || (x == a && y < b)) ==> #[trigger] ag[ms@[x] as int][ms@[y] as int]),
                forall|x: int, y: int| 0 <= x < y < len && (x < a || (x == a && y < b)) ==> min_sim <= #[trigger] rk[ms@[x] as int][ms@[y] as int],
                has_pair ==> exists|x: int, y: int| 0 <= x < y < len && (x < a || (x == a && y < b)) && #[trigger] rk[ms@[x] as int][ms@[y] as int] == min_sim,
                !has_pair ==> min_sim == u64::MAX,
                (a >= 1 && len >= 2) ==> has_pair,
                b > a + 1 ==> has_pair,
            decreases len - b,
        {
            let i = ms[a];
            let j = ms[b];
            proof {
                assert(ag[i as int] == agree@[i as int]@);
                assert(rk[i as int] == rank@[i as int]@);
            }
            let agrees = agree[i][j];
            let s = rank[i][j];
            if !agrees {
                ok = false;
            }
            if s < min_sim {
                min_sim = s;
            }
            proof {
                has_pair = true;
                assert(rk[ms@[a as int] as int][ms@[b as int] as int] == s);
                assert(ag[ms@[a as int] as int][ms@[b as int] as int] == agrees);
            }
            b = b + 1;
        }
        a = a + 1;
    }
    (ok, min_sim)
}

/// Find the largest subset of candidates where every pairwise similarity
/// meets the threshold. Ties on size are broken by the higher minimum
/// in-clique similarity (denser agreement wins), and remaining ties by the
/// first subset in mask order. Fewer than two candidates never agree.
pub fn best_agreeing_clique(agree: &Vec<Vec<bool>>, rank: &Vec<Vec<u64>>) -> (best: Vec<usize>)
    requires
        agree@.len() < 32,
        square(agree@.map_values(|r: Vec<bool>| r@), rank@.map_values(|r: Vec<u64>| r@), agree@.len() as nat),
    ensures
        ({
            let ag = agree@.map_values(|r: Vec<bool>| r@);
            let rk = rank@.map_values(|r: Vec<u64>| r@);
            let n = agree@.len() as nat;
            &&& n < 2 ==> best@.len() == 0
            &&& n >= 2 ==> (best@.len() == 0 <==> forall|m: u32| !#[trigger] is_candidate_clique(ag, n, m))
            &&& best@.len() > 0 ==> exists|m: u32| #[trigger] is_selected_clique(ag, rk, n, m) && best@ == mask_members(m, n)
        }),
{
    let ghost ag = agree@.map_values(|r: Vec<bool>| r@);
    let ghost rk = rank@.map_values(|r: Vec<u64>| r@);
    let n = agree.len();
    if n < 2 {
        return Vec::new();
    }
    let sh: u32 = n as u32;
    let limit: u32 = 1u32 << sh;
    assert(limit >= 1u32) by (bit_vector)
        requires
            limit == 1u32 << sh,
            sh < 32,
    ;
    let mut best: Vec<usize> = Vec::new();
    let mut best_min: u64 = 0;
    let ghost mut best_mask: u32 = 0;
    let mut mask: u32 = 1;
    while mask < limit
        invariant
            2 <= n < 32,
            n == agree@.len(),
            limit == (1u32 << (n as u32)),
            1 <= mask <= limit,
            ag == agree@.map_values(|r: Vec<bool>| r@),
            rk == rank@.map_values(|r: Vec<u64>| r@),
            square(ag, rk, n as nat),
            best@.len() == 0 ==> forall|m: u32| m < mask ==> !#[trigger] is_candidate_clique(ag, n as nat, m),
            best@.len() > 0 ==> {
                &&& 1 <= best_mask < mask
                &&& is_candidate_clique(ag, n as nat, best_mask)
                &&& best@ == mask_members(best_mask, n as nat)
                &&& best_min == min_rank(rk, best@)
                &&& forall|m: u32| m < mask && #[trigger] is_candidate_clique(ag, n as nat, m) ==> !strictly_better(rk, n as nat, m, best_mask)
                &&& forall|m: u32| m < best_mask && #[trigger] is_candidate_clique(ag, n as nat, m) ==> strictly_better(rk, n as nat, best_mask, m)
            },
        decreases limit - mask,
    {
        let members = members_of(mask, n);
        proof {
            lemma_mask_members_props(mask, n as nat);
        }
        if members.len() >= 2 {
            let (ok, min_sim) = scan_pairs(agree, rank, &members);
            proof {
                lemma_min_rank(rk, members@, min_sim);
            }
            if ok && (members.len() > best.len() || (members.len() == best.len() && min_sim > best_min)) {
                proof {
                    assert(is_candidate_clique(ag, n as nat, mask));
                    if best@.len() > 0 {
                        assert(strictly_better(rk, n as nat, mask, best_mask));
                        assert forall|m: u32| m < mask && #[trigger] is_candidate_clique(ag, n as nat, m)
                            implies strictly_better(rk, n as nat, mask, m) by {
                            assert(!strictly_better(rk, n as nat, m, best_mask));
                        }
                    } else {
                        assert forall|m: u32| m < mask && #[trigger] is_candidate_clique(ag, n as nat, m)
                            implies strictly_better(rk, n as nat, mask, m) by {
                        }
                    }
                    best_mask = mask;
                }
                best = members;
                best_min = min_sim;
            } else {
                proof {
                    if ok {
                        assert(is_candidate_clique(ag, n as nat, mask));
                        assert(best@.len() > 0);
                        assert(!strictly_better(rk, n as nat, mask, best_mask));
                    } else {
                        assert(!is_candidate_clique(ag, n as nat, mask));
                    }
                }
            }
        } else {
            proof {
                assert(!is_candidate_clique(ag, n as nat, mask));
            }
        }
        mask = mask + 1;
    }
    proof {
        if best@.len() > 0 {
            assert forall|m: u32| #[trigger] is_candidate_clique(ag, n as nat, m)
                implies !strictly_better(rk, n as nat, m, best_mask) by {
                assert(m < limit);
            }
            assert(is_selected_clique(ag, rk, n as nat, best_mask));
        } else {
            assert forall|m: u32| !#[trigger] is_candidate_clique(ag, n as nat, m) by {
                if is_candidate_clique(ag, n as nat, m) {
                    assert(m < limit);
                }
            }
        }
    }
    best
}


// ---------------------------------------------------------------------------
// Gating, verdicts and publication
// ---------------------------------------------------------------------------

/// Decision taken before any embedding work, from what storage holds for the
/// subject: `pending` candidates gathered so far and, when none is pending,
/// the first already-accepted submission (`(id, text)`).
///
/// Returns `None` when at least `n` candidates are pending and the quorum must
/// be computed. `n` is the configured fan-out (`0` counts as `1`).
pub fn early_decision(pending: usize, n: usize, first_accepted: Option<(i64, String)>) -> (d: Option<QuorumDecision>)
    ensures
        pending == 0 ==> match first_accepted {
            Some((id, text)) => d matches Some(QuorumDecision::Accepted { fused_text, accepted_submission_ids, rejected_submission_ids })
                && fused_text@ == text@ && accepted_submission_ids@ == seq![id] && rejected_submission_ids@.len() == 0,
            None => d matches Some(QuorumDecision::Rejected { rejected_submission_ids }) && rejected_submission_ids@.len() == 0,
        },
        pending > 0 && pending < (if n == 0 { 1 } else { n }) ==> d matches Some(QuorumDecision::Pending),
        pending > 0 && pending >= (if n == 0 { 1 } else { n }) ==> d is None,
{
    let n = if n == 0 { 1 } else { n };
    if pending == 0 {
        return match first_accepted {
            Some((id, text)) => {
                let mut accepted = Vec::new();
                accepted.push(id);
                Some(QuorumDecision::Accepted {
                    fused_text: text,
                    accepted_submission_ids: accepted,
                    rejected_submission_ids: Vec::new(),
                })
            }
            None => Some(QuorumDecision::Rejected { rejected_submission_ids: Vec::new() }),
        };
    }
    if pending < n {
        return Some(QuorumDecision::Pending);
    }
    None
}

/// The agreeing set: with a single slot the lone candidate is the quorum;
/// otherwise the best agreeing clique.
pub fn agreeing_set(n: usize, agree: &Vec<Vec<bool>>, rank: &Vec<Vec<u64>>) -> (set: Vec<usize>)
    requires
        agree@.len() >= 1,
        agree@.len() < 32,
        square(agree@.map_values(|r: Vec<bool>| r@), rank@.map_values(|r: Vec<u64>| r@), agree@.len() as nat),
    ensures
        n <= 1 ==> set@ == seq![0usize],
        n > 1 ==> ({
            let ag = agree@.map_values(|r: Vec<bool>| r@);
            let rk = rank@.map_values(|r: Vec<u64>| r@);
            let k = agree@.len() as nat;
            &&& (set@.len() == 0 <==> (k < 2 || forall|m: u32| !#[trigger] is_candidate_clique(ag, k, m)))
            &&& set@.len() > 0 ==> exists|m: u32| #[trigger] is_selected_clique(ag, rk, k, m) && set@ == mask_members(m, k)
        }),
{
    if n <= 1 {
        let mut v = Vec::new();
        v.push(0usize);
        v
    } else {
        best_agreeing_clique(agree, rank)
    }
}

/// Whether an agreeing set of `agreeing` candidates is a quorum for `n`
/// slots: non-empty and at least `2f + 1` strong.
pub fn has_quorum(n: usize, agreeing: usize) -> (q: bool)
    ensures
        q == (agreeing > 0 && agreeing >= min_clique_spec(n as nat)),
{
    let min_clique = byzantine_min_clique(n);
    !(agreeing == 0 || agreeing < min_clique)
}

/// Ids of the candidates among the first `k` for which `keep` holds.
pub open spec fn ids_where(ids: Seq<i64>, keep: spec_fn(int) -> bool, k: nat) -> Seq<i64>
    decreases k,
{
    if k == 0 {
        Seq::empty()
    } else {
        let prev = ids_where(ids, keep, (k - 1) as nat);
        if keep(k - 1) {
            prev.push(ids[k - 1])
        } else {
            prev
        }
    }
}

/// Split the candidates of an accepted quorum into the submissions recorded
/// as accepted and as rejected. A candidate whose storage write failed
/// (`written[i] == false`) is reported in neither list.
pub fn split_verdicts(ids: &Vec<i64>, agreeing: &Vec<usize>, written: &Vec<bool>) -> (res: (Vec<i64>, Vec<i64>))
    requires
        written@.len() == ids@.len(),
    ensures
        res.0@ == ids_where(ids@, |i: int| agreeing@.contains(i as usize) && written@[i], ids@.len() as nat),
        res.1@ == ids_where(ids@, |i: int| !agreeing@.contains(i as usize) && written@[i], ids@.len() as nat),
{
    let mut accepted: Vec<i64> = Vec::new();
    let mut rejected: Vec<i64> = Vec::new();
    let mut i: usize = 0;
    while i < ids.len()
        invariant
            written@.len() == ids@.len(),
            i <= ids@.len(),
            accepted@ == ids_where(ids@, |i: int| agreeing@.contains(i as usize) && written@[i], i as nat),
            rejected@ == ids_where(ids@, |i: int| !agreeing@.contains(i as usize) && written@[i], i as nat),
        decreases ids@.len() - i,
    {
        let mut member = false;
        let mut j: usize = 0;
        while j < agreeing.len()
            invariant
                j <= agreeing@.len(),
                member == exists|x: int| 0 <= x < j && agreeing@[x] == i,
            decreases agreeing@.len() - j,
        {
            if agreeing[j] == i {
                member = true;
            }
            j = j + 1;
        }
        if written[i] {
            if member {
                accepted.push(ids[i]);
            } else {
                rejected.push(ids[i]);
            }
        }
        i = i + 1;
    }
    (accepted, rejected)
}

/// `x` followed by nothing it already holds: append unless present.
pub open spec fn push_distinct(acc: Seq<Seq<char>>, x: Seq<char>) -> Seq<Seq<char>> {
    if acc.contains(x) { acc } else { acc.push(x) }
}

/// Distinct authors of the first `k` rows whose write succeeded, in order of
/// first appearance.
pub open spec fn distinct_authors(authors: Seq<Seq<char>>, written: Seq<bool>, k: nat) -> Seq<Seq<char>>
    decreases k,
{
    if k == 0 {
        Seq::empty()
    } else {
        let prev = distinct_authors(authors, written, (k - 1) as nat);
        if written[k - 1] { push_distinct(prev, authors[k - 1]) } else { prev }
    }
}

fn contains_string(v: &Vec<String>, x: &String) -> (r: bool)
    ensures
        r == v@.map_values(|s: String| s@).contains(x@),
{
    let ghost vv = v@.map_values(|s: String| s@);
    let mut i: usize = 0;
    while i < v.len()
        invariant
            vv == v@.map_values(|s: String| s@),
            i <= v@.len(),
            forall|j: int| 0 <= j < i ==> vv[j] != x@,
        decreases v@.len() - i,
    {
        if v[i] == *x {
            proof {
                assert(vv[i as int] == x@);
            }
            return true;
        }
        i = i + 1;
    }
    false
}

/// When no quorum formed every candidate is rejected and its author struck.
/// Returns the ids whose rejection was recorded (`written[i]`) and the
/// distinct authors that diverged, in order of first appearance.
pub fn reject_all(ids: &Vec<i64>, authors: &Vec<String>, written: &Vec<bool>) -> (res: (Vec<i64>, Vec<String>))
    requires
        authors@.len() == ids@.len(),
        written@.len() == ids@.len(),
    ensures
        res.0@ == ids_where(ids@, |i: int| written@[i], ids@.len() as nat),
        res.1@.map_values(|s: String| s@) == distinct_authors(authors@.map_values(|s: String| s@), written@, ids@.len() as nat),
{
    let ghost au = authors@.map_values(|s: String| s@);
    let mut rejected: Vec<i64> = Vec::new();
    let mut divergers: Vec<String> = Vec::new();
    let mut i: usize = 0;
    while i < ids.len()
        invariant
            au == authors@.map_values(|s: String| s@),
            authors@.len() == ids@.len(),
            written@.len() == ids@.len(),
            i <= ids@.len(),
            rejected@ == ids_where(ids@, |i: int| written@[i], i as nat),
            divergers@.map_values(|s: String| s@) == distinct_authors(au, written@, i as nat),
        decreases ids@.len() - i,
    {
        if written[i] {
            rejected.push(ids[i]);
            let seen = contains_string(&divergers, &authors[i]);
            if !seen {
                let ghost before = divergers@;
                divergers.push(authors[i].clone());
                proof {
                    assert(divergers@.map_values(|s: String| s@) =~= before.map_values(|s: String| s@).push(au[i as int]));
                }
            }
        }
        i = i + 1;
    }
    (rejected, divergers)
}

/// Final decision of a quorum that was reached: the published text, the
/// candidates recorded as accepted and those recorded as rejected (a
/// candidate whose storage write failed is in neither list).
pub fn accepted_decision(fused_text: String, ids: &Vec<i64>, agreeing: &Vec<usize>, written: &Vec<bool>) -> (d: QuorumDecision)
    requires
        written@.len() == ids@.len(),
    ensures
        d matches QuorumDecision::Accepted { fused_text: t, accepted_submission_ids: a, rejected_submission_ids: r }
            && t == fused_text
            && a@ == ids_where(ids@, |i: int| agreeing@.contains(i as usize) && written@[i], ids@.len() as nat)
            && r@ == ids_where(ids@, |i: int| !agreeing@.contains(i as usize) && written@[i], ids@.len() as nat),
{
    let (accepted, rejected) = split_verdicts(ids, agreeing, written);
    QuorumDecision::Accepted {
        fused_text,
        accepted_submission_ids: accepted,
        rejected_submission_ids: rejected,
    }
}

/// Final decision when no quorum formed, with the distinct diverging
/// authors that the re-fan-out excludes.
pub fn rejected_decision(ids: &Vec<i64>, authors: &Vec<String>, written: &Vec<bool>) -> (res: (QuorumDecision, Vec<String>))
    requires
        authors@.len() == ids@.len(),
        written@.len() == ids@.len(),
    ensures
        res.0 matches QuorumDecision::Rejected { rejected_submission_ids: r }
            && r@ == ids_where(ids@, |i: int| written@[i], ids@.len() as nat),
        res.1@.map_values(|s: String| s@) == distinct_authors(authors@.map_values(|s: String| s@), written@, ids@.len() as nat),
{
    let (rejected, divergers) = reject_all(ids, authors, written);
    (QuorumDecision::Rejected { rejected_submission_ids: rejected }, divergers)
}

/// Every written candidate of a reached quorum is recorded exactly once:
/// the accepted and rejected lists together hold one entry per written
/// candidate.
pub proof fn lemma_verdicts_partition_written(ids: Seq<i64>, agreeing: Seq<usize>, written: Seq<bool>, k: nat)
    requires
        k <= ids.len(),
        written.len() == ids.len(),
    ensures
        ids_where(ids, |i: int| agreeing.contains(i as usize) && written[i], k).len()
            + ids_where(ids, |i: int| !agreeing.contains(i as usize) && written[i], k).len()
            == ids_where(ids, |i: int| written[i], k).len(),
    decreases k,
{
    if k > 0 {
        lemma_verdicts_partition_written(ids, agreeing, written, (k - 1) as nat);
    }
}

/// `k` is the first position of `agreeing` whose candidate has the highest
/// score among the agreeing ones.
pub open spec fn is_first_best(agreeing: Seq<usize>, scores: Seq<u64>, k: int) -> bool {
    &&& 0 <= k < agreeing.len()
    &&& forall|j: int| 0 <= j < agreeing.len() ==> scores[agreeing[j] as int] <= scores[agreeing[k] as int]
    &&& forall|j: int| 0 <= j < k ==> scores[agreeing[j] as int] < scores[agreeing[k] as int]
}

/// Pick which agreeing candidate becomes the published RLM node: the one with
/// the highest trust-weighted score (`scores[i]` orders candidates as their
/// scores do), the earliest among equals. Returns `0` when nobody agrees.
pub fn choose_published(agreeing: &Vec<usize>, scores: &Vec<u64>) -> (idx: usize)
    requires
        forall|j: int| 0 <= j < agreeing@.len() ==> agreeing@[j] < scores@.len(),
    ensures
        agreeing@.len() == 0 ==> idx == 0,
        agreeing@.len() > 0 ==> exists|k: int| is_first_best(agreeing@, scores@, k) && idx == agreeing@[k],
{
    if agreeing.len() == 0 {
        return 0;
    }
    let mut best_k: usize = 0;
    let mut best_score: u64 = scores[agreeing[0]];
    let mut j: usize = 1;
    while j < agreeing.len()
        invariant
            forall|x: int| 0 <= x < agreeing@.len() ==> agreeing@[x] < scores@.len(),
            1 <= j <= agreeing@.len(),
            best_k < j,
            best_score == scores@[agreeing@[best_k as int] as int],
            forall|x: int| 0 <= x < j ==> scores@[agreeing@[x] as int] <= best_score,
            forall|x: int| 0 <= x < best_k ==> scores@[agreeing@[x] as int] < best_score,
        decreases agreeing@.len() - j,
    {
        let s = scores[agreeing[j]];
        if s > best_score {
            best_score = s;
            best_k = j;
        }
        j = j + 1;
    }
    proof {
        assert(is_first_best(agreeing@, scores@, best_k as int));
    }
    agreeing[best_k]
}

/// Two selected cliques are the same: the selection is unique.
proof fn lemma_selected_unique(agree: Seq<Seq<bool>>, rank: Seq<Seq<u64>>, n: nat, m1: u32, m2: u32)
    requires
        is_selected_clique(agree, rank, n, m1),
        is_selected_clique(agree, rank, n, m2),
    ensures
        m1 == m2,
{
    assert(is_candidate_clique(agree, n, m1));
    assert(is_candidate_clique(agree, n, m2));
}

/// The agreeing set of a full candidate set over `k` candidates with `n`
/// slots: the lone candidate when a single slot is configured, otherwise the
/// members of the selected clique (empty when no two candidates agree).
pub open spec fn agreeing_spec(n: nat, agree: Seq<Seq<bool>>, rank: Seq<Seq<u64>>, k: nat) -> Seq<usize> {
    if n <= 1 {
        seq![0usize]
    } else if exists|m: u32| is_selected_clique(agree, rank, k, m) {
        mask_members(choose|m: u32| is_selected_clique(agree, rank, k, m), k)
    } else {
        Seq::empty()
    }
}

/// Whether the agreeing set `a` is a quorum for `n` slots.
pub open spec fn reaches_quorum(n: nat, a: Seq<usize>) -> bool {
    a.len() > 0 && a.len() >= min_clique_spec(n)
}

/// Outcome of the clique search over a full set of candidates.
#[derive(Debug, Clone, PartialEq, Eq)]
pub enum QuorumOutcome {
    /// No agreeing set reaches the `2f + 1` bound: every candidate is rejected.
    NoConsensus,
    /// These candidates (indices, ascending) form the quorum.
    Reached { agreeing: Vec<usize> },
}

/// The clique step of a quorum decision once `n` candidates are gathered and
/// their pairwise agreement is known: the agreeing set when it reaches the
/// Byzantine bound, `NoConsensus` otherwise.
pub fn quorum_outcome(n: usize, agree: &Vec<Vec<bool>>, rank: &Vec<Vec<u64>>) -> (o: QuorumOutcome)
    requires
        agree@.len() >= 1,
        agree@.len() < 32,
        square(agree@.map_values(|r: Vec<bool>| r@), rank@.map_values(|r: Vec<u64>| r@), agree@.len() as nat),
    ensures
        ({
            let a = agreeing_spec(n as nat, agree@.map_values(|r: Vec<bool>| r@), rank@.map_values(|r: Vec<u64>| r@), agree@.len() as nat);
            if reaches_quorum(n as nat, a) {
                o matches QuorumOutcome::Reached { agreeing } && agreeing@ == a
            } else {
                o is NoConsensus
            }
        }),
{
    let ghost ag = agree@.map_values(|r: Vec<bool>| r@);
    let ghost rk = rank@.map_values(|r: Vec<u64>| r@);
    let ghost k = agree@.len() as nat;
    let set = agreeing_set(n, agree, rank);
    proof {
        if n > 1 {
            if set@.len() > 0 {
                let m = choose|m: u32| #[trigger] is_selected_clique(ag, rk, k, m) && set@ == mask_members(m, k);
                let c = choose|m: u32| is_selected_clique(ag, rk, k, m);
                lemma_selected_unique(ag, rk, k, m, c);
                assert(set@ == agreeing_spec(n as nat, ag, rk, k));
            } else {
                if exists|m: u32| is_selected_clique(ag, rk, k, m) {
                    let c = choose|m: u32| is_selected_clique(ag, rk, k, m);
                    assert(is_candidate_clique(ag, k, c));
                    lemma_mask_members_props(c, k);
                }
                assert(set@ =~= agreeing_spec(n as nat, ag, rk, k));
            }
        }
        assert(set@ =~= agreeing_spec(n as nat, ag, rk, k));
    }
    if has_quorum(n, set.len()) {
        QuorumOutcome::Reached { agreeing: set }
    } else {
        QuorumOutcome::NoConsensus
    }
}

/// A quorum over several slots is at least `2f + 1` candidates that all
/// pairwise agree.
pub proof fn lemma_quorum_mutually_agrees(n: nat, agree: Seq<Seq<bool>>, rank: Seq<Seq<u64>>, k: nat)
    requires
        n > 1,
        reaches_quorum(n, agreeing_spec(n, agree, rank, k)),
    ensures
        agreeing_spec(n, agree, rank, k).len() >= min_clique_spec(n),
        members_agree(agree, agreeing_spec(n, agree, rank, k)),
{
    let c = choose|m: u32| is_selected_clique(agree, rank, k, m);
    assert(is_candidate_clique(agree, k, c));
}

/// The candidate a reached quorum publishes and its text: the agreeing
/// candidate [`choose_published`] picks, carrying that candidate's own text.
pub fn published_candidate(agreeing: &Vec<usize>, scores: &Vec<u64>, texts: &Vec<String>) -> (p: (usize, String))
    requires
        agreeing@.len() > 0,
        scores@.len() == texts@.len(),
        forall|j: int| 0 <= j < agreeing@.len() ==> agreeing@[j] < texts@.len(),
    ensures
        exists|k: int| is_first_best(agreeing@, scores@, k) && p.0 == agreeing@[k],
        p.0 < texts@.len(),
        p.1@ == texts@[p.0 as int]@,
{
    let idx = choose_published(agreeing, scores);
    proof {
        let k = choose|k: int| is_first_best(agreeing@, scores@, k) && idx == agreeing@[k];
        assert(agreeing@[k] < texts@.len());
    }
    let text = texts[idx].clone();
    (idx, text)
}

/// What happens after a total divergence.
#[derive(Debug, Clone, Copy, PartialEq, Eq)]
pub enum ReassignVerdict {
    /// The subject reached the generation ceiling: left for human review.
    GenerationCapped,
    /// No volunteer outside the banned and diverging ones remains.
    NoVolunteers,
    /// Re-fan the subject out to a fresh generation group.
    Reassign,
}

/// A roster entry is banned once its strikes (as a `u32`) reach the limit.
pub open spec fn is_banned(strikes: i64, limit: u32) -> bool {
    strikes as u32 >= limit
}

/// Whether `name` is a banned roster entry.
pub open spec fn banned_name(names: Seq<Seq<char>>, strikes: Seq<i64>, limit: u32, name: Seq<char>) -> bool {
    exists|j: int| 0 <= j < names.len() && names[j] == name && is_banned(strikes[j], limit)
}

/// Roster entries among the first `k` that are neither banned nor diverged.
pub open spec fn available_count(names: Seq<Seq<char>>, strikes: Seq<i64>, limit: u32, divergers: Seq<Seq<char>>, k: nat) -> nat
    decreases k,
{
    if k == 0 {
        0
    } else {
        let prev = available_count(names, strikes, limit, divergers, (k - 1) as nat);
        if !banned_name(names, strikes, limit, names[k - 1]) && !divergers.contains(names[k - 1]) {
            prev + 1
        } else {
            prev
        }
    }
}

proof fn lemma_available_count_bounded(names: Seq<Seq<char>>, strikes: Seq<i64>, limit: u32, divergers: Seq<Seq<char>>, k: nat)
    ensures
        available_count(names, strikes, limit, divergers, k) <= k,
    decreases k,
{
    if k > 0 {
        lemma_available_count_bounded(names, strikes, limit, divergers, (k - 1) as nat);
    }
}

fn roster_banned(names: &Vec<String>, strikes: &Vec<i64>, limit: u32, x: &String) -> (r: bool)
    requires
        strikes@.len() == names@.len(),
    ensures
        r == banned_name(names@.map_values(|s: String| s@), strikes@, limit, x@),
{
    let ghost nm = names@.map_values(|s: String| s@);
    let mut j: usize = 0;
    while j < names.len()
        invariant
            nm == names@.map_values(|s: String| s@),
            strikes@.len() == names@.len(),
            j <= names@.len(),
            forall|t: int| 0 <= t < j ==> !(nm[t] == x@ && is_banned(strikes@[t], limit)),
        decreases names@.len() - j,
    {
        if names[j] == *x && strikes[j] as u32 >= limit {
            proof {
                assert(nm[j as int] == x@);
            }
            return true;
        }
        j = j + 1;
    }
    false
}

/// A subject at `generation` may still be re-fanned out: the generation,
/// read as a `u32`, is below the strikes limit.
pub open spec fn reassign_allowed(generation: i64, limit: u32) -> bool {
    (generation as u32) < limit
}

/// Re-fan-outs over successive total-divergence rounds of one subject that
/// starts at `generation`. Round `i` re-fans out when its generation still
/// allows it and volunteers are found (`found[i]`); a re-fan-out opens the
/// next generation (the excluding enqueue's reset), any other round leaves
/// the generation as it is.
pub open spec fn refanouts(generation: i64, limit: u32, found: Seq<bool>) -> nat
    decreases found.len(),
{
    if found.len() == 0 {
        0
    } else if reassign_allowed(generation, limit) && found[0] && generation < i64::MAX {
        1 + refanouts((generation + 1) as i64, limit, found.drop_first())
    } else {
        refanouts(generation, limit, found.drop_first())
    }
}

/// However many rounds run, a subject is re-fanned out at most
/// `strikes_limit` times from generation 0, and in general no more times
/// than the generations left below the limit.
pub proof fn lemma_refanouts_capped(generation: i64, limit: u32, found: Seq<bool>)
    requires
        0 <= generation <= u32::MAX,
    ensures
        generation <= limit ==> refanouts(generation, limit, found) <= limit - generation,
        generation > limit ==> refanouts(generation, limit, found) == 0,
        generation == 0 ==> refanouts(generation, limit, found) <= limit,
    decreases found.len(),
{
    assert((generation as u32) as int == generation as int);
    if found.len() > 0 {
        if reassign_allowed(generation, limit) && found[0] && generation < i64::MAX {
            lemma_refanouts_capped((generation + 1) as i64, limit, found.drop_first());
        } else {
            lemma_refanouts_capped(generation, limit, found.drop_first());
        }
    }
}

/// Decide whether a diverged subject is re-fanned out. Re-fan-outs are capped
/// at `strikes_limit` generations; and once every known volunteer
/// (`names`/`strikes`, the trust roster) is banned or among the `divergers`
/// the subject is left for review.
pub fn reassign_verdict(
    current_generation: i64,
    strikes_limit: u32,
    names: &Vec<String>,
    strikes: &Vec<i64>,
    divergers: &Vec<String>,
    n: usize,
) -> (v: ReassignVerdict)
    requires
        strikes@.len() == names@.len(),
    ensures
        ({
            let nm = names@.map_values(|s: String| s@);
            let dv = divergers@.map_values(|s: String| s@);
            let available = available_count(nm, strikes@, strikes_limit, dv, nm.len());
            &&& !reassign_allowed(current_generation, strikes_limit) ==> v is GenerationCapped
            &&& reassign_allowed(current_generation, strikes_limit) && dv.len() > 0 && names@.len() >= n && available == 0
                ==> v is NoVolunteers
            &&& reassign_allowed(current_generation, strikes_limit) && !(dv.len() > 0 && names@.len() >= n && available == 0)
                ==> v is Reassign
        }),
{
    if current_generation as u32 >= strikes_limit {
        return ReassignVerdict::GenerationCapped;
    }
    let ghost nm = names@.map_values(|s: String| s@);
    let ghost dv = divergers@.map_values(|s: String| s@);
    let mut available: usize = 0;
    let mut i: usize = 0;
    while i < names.len()
        invariant
            nm == names@.map_values(|s: String| s@),
            dv == divergers@.map_values(|s: String| s@),
            strikes@.len() == names@.len(),
            i <= names@.len(),
            available == available_count(nm, strikes@, strikes_limit, dv, i as nat),
        decreases names@.len() - i,
    {
        proof {
            lemma_available_count_bounded(nm, strikes@, strikes_limit, dv, i as nat);
        }
        let is_banned_name = roster_banned(names, strikes, strikes_limit, &names[i]);
        let diverged = contains_string(divergers, &names[i]);
        if !is_banned_name && !diverged {
            available = available + 1;
        }
        i = i + 1;
    }
    if divergers.len() > 0 && names.len() >= n && available == 0 {
        ReassignVerdict::NoVolunteers
    } else {
        ReassignVerdict::Reassign
    }
}

} // verus!
