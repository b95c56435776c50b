//! Lexicographic order on strings, and sorted de-duplicated string lists.
use vstd::prelude::*;

verus! {

/// The character sequences of a list of strings.
pub open spec fn views(v: Seq<String>) -> Seq<Seq<char>> {
    v.map_values(|s: String| s@)
}

/// `a` sorts strictly before `b`, character by character; a proper prefix
/// sorts first.
pub open spec fn seq_lt(a: Seq<char>, b: Seq<char>) -> bool
    decreases a.len(),
{
    if a.len() == 0 {
        b.len() > 0
    } else if b.len() == 0 {
        false
    } else if a[0] != b[0] {
        (a[0] as u32) < (b[0] as u32)
    } else {
        seq_lt(a.drop_first(), b.drop_first())
    }
}

/// Strictly increasing, hence free of duplicates.
pub open spec fn strictly_sorted(s: Seq<Seq<char>>) -> bool {
    forall|i: int, j: int| 0 <= i < j < s.len() ==> seq_lt(#[trigger] s[i], #[trigger] s[j])
}

pub proof fn lemma_lt_irreflexive(a: Seq<char>)
    ensures
        !seq_lt(a, a),
    decreases a.len(),
{
    if a.len() > 0 {
        lemma_lt_irreflexive(a.drop_first());
    }
}

pub proof fn lemma_lt_transitive(a: Seq<char>, b: Seq<char>, c: Seq<char>)
    requires
        seq_lt(a, b),
        seq_lt(b, c),
    ensures
        seq_lt(a, c),
    decreases a.len(),
{
    if a.len() > 0 && b.len() > 0 && c.len() > 0 {
        if a[0] == b[0] && b[0] == c[0] {
            lemma_lt_transitive(a.drop_first(), b.drop_first(), c.drop_first());
        }
    }
}

pub proof fn lemma_lt_total(a: Seq<char>, b: Seq<char>)
    requires
        a != b,
    ensures
        seq_lt(a, b) || seq_lt(b, a),
    decreases a.len(),
{
    if a.len() > 0 && b.len() > 0 {
        if a[0] == b[0] {
            if a.drop_first() == b.drop_first() {
                assert(a =~= seq![a[0]] + a.drop_first());
                assert(b =~= seq![b[0]] + b.drop_first());
            }
            lemma_lt_total(a.drop_first(), b.drop_first());
        } else {
            vstd::utf8::char_u32_cast(a[0], a[0] as u32);
            vstd::utf8::char_u32_cast(b[0], b[0] as u32);
        }
    } else if a.len() == 0 && b.len() == 0 {
        assert(a =~= b);
    }
}

pub proof fn lemma_lt_asymmetric(a: Seq<char>, b: Seq<char>)
    requires
        seq_lt(a, b),
    ensures
        !seq_lt(b, a),
{
    if seq_lt(b, a) {
        lemma_lt_transitive(a, b, a);
        lemma_lt_irreflexive(a);
    }
}

proof fn lemma_lt_common_prefix(a: Seq<char>, b: Seq<char>, i: int)
    requires
        0 <= i <= a.len(),
        i <= b.len(),
        a.take(i) == b.take(i),
    ensures
        seq_lt(a, b) == seq_lt(a.skip(i), b.skip(i)),
    decreases i,
{
    if i > 0 {
        assert(a[0] == a.take(i)[0]);
        assert(b[0] == b.take(i)[0]);
        assert(a.drop_first().take(i - 1) =~= a.take(i).drop_first());
        assert(b.drop_first().take(i - 1) =~= b.take(i).drop_first());
        lemma_lt_common_prefix(a.drop_first(), b.drop_first(), i - 1);
        assert(a.drop_first().skip(i - 1) =~= a.skip(i));
        assert(b.drop_first().skip(i - 1) =~= b.skip(i));
    } else {
        assert(a.skip(0) =~= a);
        assert(b.skip(0) =~= b);
    }
}

/// Whether `a` sorts strictly before `b`.
pub fn str_lt(a: &str, b: &str) -> (r: bool)
    ensures
        r == seq_lt(a@, b@),
{
    let n = a.unicode_len();
    let m = b.unicode_len();
    let mut i: usize = 0;
    while i < n && i < m
        invariant
            n == a@.len(),
            m == b@.len(),
            i <= n,
            i <= m,
            a@.take(i as int) == b@.take(i as int),
        decreases n - i,
    {
        let ca = a.get_char(i);
        let cb = b.get_char(i);
        if ca != cb {
            proof {
                lemma_lt_common_prefix(a@, b@, i as int);
                assert(a@.skip(i as int)[0] == ca);
                assert(b@.skip(i as int)[0] == cb);
            }
            return (ca as u32) < (cb as u32);
        }
        proof {
            assert(a@.take(i + 1) =~= a@.take(i as int).push(ca));
            assert(b@.take(i + 1) =~= b@.take(i as int).push(cb));
        }
        i = i + 1;
    }
    proof {
        lemma_lt_common_prefix(a@, b@, i as int);
    }
    i == n && i < m
}

/// The strings of `v`, sorted strictly increasing, each once.
pub fn sort_dedup(v: &Vec<String>) -> (out: Vec<String>)
    ensures
        strictly_sorted(out@.map_values(|s: String| s@)),
        out@.map_values(|s: String| s@).to_set() == v@.map_values(|s: String| s@).to_set(),
{
    let ghost vv = v@.map_values(|s: String| s@);
    let mut out: Vec<String> = Vec::new();
    let mut i: usize = 0;
    while i < v.len()
        invariant
            vv == v@.map_values(|s: String| s@),
            i <= v@.len(),
            strictly_sorted(out@.map_values(|s: String| s@)),
            out@.map_values(|s: String| s@).to_set() == vv.take(i as int).to_set(),
        decreases v@.len() - i,
    {
        let ghost ov = out@.map_values(|s: String| s@);
        let x = &v[i];
        let mut j: usize = 0;
        while j < out.len() && str_lt(out[j].as_str(), x.as_str())
            invariant
                ov == out@.map_values(|s: String| s@),
                i < v@.len(),
                x@ == vv[i as int],
                vv == v@.map_values(|s: String| s@),
                j <= out@.len(),
                forall|t: int| 0 <= t < j ==> seq_lt(ov[t], x@),
            decreases out@.len() - j,
        {
            proof {
                assert(ov[j as int] == out@[j as int]@);
            }
            j = j + 1;
        }
        proof {
            assert(vv.take(i + 1) =~= vv.take(i as int).push(vv[i as int]));
            vv.take(i as int).lemma_push_to_set_commute(vv[i as int]);
        }
        let dup = j < out.len() && out[j] == *x;
        if dup {
            proof {
                assert(ov[j as int] == x@);
                assert(ov.to_set().contains(x@));
                assert(ov.to_set().insert(x@) =~= ov.to_set());
            }
        } else {
            proof {
                if j < out@.len() {
                    assert(ov[j as int] == out@[j as int]@);
                    assert(!seq_lt(ov[j as int], x@));
                    assert(ov[j as int] != x@);
                    lemma_lt_total(ov[j as int], x@);
                }
            }
            out.insert(j, x.clone());
            proof {
                let nv = out@.map_values(|s: String| s@);
                assert(nv =~= ov.insert(j as int, x@));
                assert forall|a: int, b: int| 0 <= a < b < nv.len() implies seq_lt(#[trigger] nv[a], #[trigger] nv[b]) by {
                    if b < j {
                        assert(nv[a] == ov[a] && nv[b] == ov[b]);
                    } else if b == j {
                        assert(nv[a] == ov[a]);
                    } else if a == j {
                        assert(nv[b] == ov[b - 1]);
                        if b - 1 > j {
                            assert(seq_lt(ov[j as int], ov[b - 1]));
                            lemma_lt_transitive(x@, ov[j as int], ov[b - 1]);
                        }
                    } else if a < j {
                        assert(nv[a] == ov[a] && nv[b] == ov[b - 1]);
                        if a == b - 1 {
                        } else {
                            assert(seq_lt(ov[a], ov[b - 1]));
                        }
                    } else {
                        assert(nv[a] == ov[a - 1] && nv[b] == ov[b - 1]);
                    }
                }
                assert(nv.to_set() =~= ov.to_set().insert(x@)) by {
                    assert forall|y: Seq<char>| nv.to_set().contains(y) <==> ov.to_set().insert(x@).contains(y) by {
                        if nv.contains(y) {
                            let t = choose|t: int| 0 <= t < nv.len() && nv[t] == y;
                            if t < j {
                                assert(ov[t] == y);
                            } else if t > j {
                                assert(ov[t - 1] == y);
                            }
                        }
                        if ov.contains(y) {
                            let t = choose|t: int| 0 <= t < ov.len() && ov[t] == y;
                            if t < j {
                                assert(nv[t] == y);
                            } else {
                                assert(nv[t + 1] == y);
                            }
                        }
                        if y == x@ {
                            assert(nv[j as int] == y);
                        }
                    }
                }
            }
        }
        i = i + 1;
    }
    proof {
        assert(vv.take(v@.len() as int) =~= vv);
    }
    out
}

} // verus!
