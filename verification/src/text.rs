//! Pure text helpers: FTS5 query sanitising, theme bucketing, job keys and
//! decimal rendering.
use vstd::prelude::*;
use crate::primitives::{push_char, is_alphanumeric, is_whitespace};

verus! {

/// The ASCII digit character for `d < 10`.
pub open spec fn digit_char(d: nat) -> char {
    if d == 0 { '0' } else if d == 1 { '1' } else if d == 2 { '2' } else if d == 3 { '3' }
    else if d == 4 { '4' } else if d == 5 { '5' } else if d == 6 { '6' } else if d == 7 { '7' }
    else if d == 8 { '8' } else { '9' }
}

/// Decimal digits of a natural number, most significant first, no leading zeros.
pub open spec fn nat_digits(n: nat) -> Seq<char>
    decreases n,
{
    if n < 10 {
        seq![digit_char(n)]
    } else {
        nat_digits(n / 10).push(digit_char(n % 10))
    }
}

/// Decimal rendering of an integer, as `format!("{}")` writes it.
pub open spec fn int_decimal(n: int) -> Seq<char> {
    if n < 0 {
        seq!['-'] + nat_digits((-n) as nat)
    } else {
        nat_digits(n as nat)
    }
}

fn digit_of(d: u64) -> (c: char)
    requires
        d < 10,
    ensures
        c == digit_char(d as nat),
{
    if d == 0 { '0' } else if d == 1 { '1' } else if d == 2 { '2' } else if d == 3 { '3' }
    else if d == 4 { '4' } else if d == 5 { '5' } else if d == 6 { '6' } else if d == 7 { '7' }
    else if d == 8 { '8' } else { '9' }
}

fn push_nat_digits(s: &mut String, n: u64)
    ensures
        final(s)@ == old(s)@ + nat_digits(n as nat),
    decreases n,
{
    if n >= 10 {
        push_nat_digits(s, n / 10);
    }
    push_char(s, digit_of(n % 10));
    proof {
        assert(final(s)@ =~= old(s)@ + nat_digits(n as nat));
    }
}

/// Append the decimal digits of the unsigned `n` to `s`.
pub fn push_unsigned(s: &mut String, n: u64)
    ensures
        final(s)@ == old(s)@ + nat_digits(n as nat),
{
    push_nat_digits(s, n);
}

/// Append the decimal rendering of `n` to `s`.
pub fn push_decimal(s: &mut String, n: i64)
    ensures
        final(s)@ == old(s)@ + int_decimal(n as int),
{
    if n < 0 {
        push_char(s, '-');
        let magnitude: u64 = if n == i64::MIN {
            9223372036854775808u64
        } else {
            (-n) as u64
        };
        push_nat_digits(s, magnitude);
        proof {
            assert(final(s)@ =~= old(s)@ + int_decimal(n as int));
        }
    } else {
        push_nat_digits(s, n as u64);
    }
}


/// The theme a repository-root file belongs to.
pub open spec fn root_theme() -> Seq<char> {
    seq!['(', 'r', 'o', 'o', 't', ')']
}

/// `k` is the position of the first `/` in `p`.
pub open spec fn is_first_slash(p: Seq<char>, k: int) -> bool {
    &&& 0 <= k < p.len()
    &&& p[k] == '/'
    &&& forall|j: int| 0 <= j < k ==> p[j] != '/'
}

/// L2 theme of a file path: its first path segment, or `(root)` when the
/// path has no `/` at all.
pub open spec fn theme_spec(p: Seq<char>) -> Seq<char> {
    if exists|k: int| is_first_slash(p, k) {
        p.take(choose|k: int| is_first_slash(p, k))
    } else {
        root_theme()
    }
}

proof fn lemma_first_slash_unique(p: Seq<char>, k1: int, k2: int)
    requires
        is_first_slash(p, k1),
        is_first_slash(p, k2),
    ensures
        k1 == k2,
{
}

/// L2 grouping: first path segment, or `(root)` for top-level files.
pub fn theme_of(file_path: &str) -> (theme: String)
    ensures
        theme@ == theme_spec(file_path@),
{
    let n = file_path.unicode_len();
    let mut i: usize = 0;
    while i < n
        invariant
            n == file_path@.len(),
            i <= n,
            forall|j: int| 0 <= j < i ==> file_path@[j] != '/',
        decreases n - i,
    {
        if file_path.get_char(i) == '/' {
            let first = file_path.substring_char(0, i).to_owned();
            proof {
                assert(is_first_slash(file_path@, i as int));
                let k = choose|k: int| is_first_slash(file_path@, k);
                lemma_first_slash_unique(file_path@, i as int, k);
            }
            return first;
        }
        i = i + 1;
    }
    let root = "(root)".to_owned();
    proof {
        reveal_strlit("(root)");
        assert(root@ =~= root_theme());
        assert(!exists|k: int| is_first_slash(file_path@, k));
    }
    root
}

/// `&str` equality by characters.
pub fn str_eq(a: &str, b: &str) -> (r: bool)
    ensures
        r == (a@ == b@),
{
    let n = a.unicode_len();
    let m = b.unicode_len();
    if n != m {
        return false;
    }
    let mut i: usize = 0;
    while i < n
        invariant
            n == a@.len(),
            m == b@.len(),
            n == m,
            i <= n,
            forall|j: int| 0 <= j < i ==> a@[j] == b@[j],
        decreases n - i,
    {
        if a.get_char(i) != b.get_char(i) {
            return false;
        }
        i = i + 1;
    }
    proof {
        assert(a@ =~= b@);
    }
    true
}

/// Deterministic job key `L{level}:{project}:{subject}`.
pub open spec fn job_key_spec(project: Seq<char>, level: int, subject: Seq<char>) -> Seq<char> {
    seq!['L'] + int_decimal(level) + seq![':'] + project + seq![':'] + subject
}

/// Deterministic job key so re-enqueues replace rather than duplicate.
pub fn rlm_job_key(project: &str, level: i64, subject: &str) -> (key: String)
    ensures
        key@ == job_key_spec(project@, level as int, subject@),
{
    let mut key = String::new();
    push_char(&mut key, 'L');
    push_decimal(&mut key, level);
    push_char(&mut key, ':');
    key.append(project);
    push_char(&mut key, ':');
    key.append(subject);
    proof {
        assert(key@ =~= job_key_spec(project@, level as int, subject@));
    }
    key
}

proof fn lemma_nat_digits_len(n: nat)
    ensures
        nat_digits(n).len() >= 1,
        nat_digits(n).len() == 1 <==> n < 10,
    decreases n,
{
    if n >= 10 {
        lemma_nat_digits_len(n / 10);
    }
}

proof fn lemma_digit_char_injective(a: nat, b: nat)
    requires
        a < 10,
        b < 10,
        digit_char(a) == digit_char(b),
    ensures
        a == b,
{
}

proof fn lemma_nat_digits_injective(a: nat, b: nat)
    requires
        nat_digits(a) == nat_digits(b),
    ensures
        a == b,
    decreases a,
{
    lemma_nat_digits_len(a);
    lemma_nat_digits_len(b);
    if a < 10 {
        assert(b < 10);
        assert(nat_digits(a) == seq![digit_char(a)]);
        assert(nat_digits(b) == seq![digit_char(b)]);
        assert(nat_digits(a)[0] == nat_digits(b)[0]);
        assert(seq![digit_char(a)][0] == digit_char(a));
        assert(seq![digit_char(b)][0] == digit_char(b));
        lemma_digit_char_injective(a, b);
    } else {
        assert(b >= 10);
        let da = nat_digits(a);
        let db = nat_digits(b);
        assert(da.last() == digit_char(a % 10));
        assert(db.last() == digit_char(b % 10));
        lemma_digit_char_injective(a % 10, b % 10);
        assert(da.drop_last() =~= nat_digits(a / 10));
        assert(db.drop_last() =~= nat_digits(b / 10));
        lemma_nat_digits_injective(a / 10, b / 10);
    }
}

proof fn lemma_nat_digits_no_minus(n: nat)
    ensures
        forall|i: int| 0 <= i < nat_digits(n).len() ==> nat_digits(n)[i] != '-',
    decreases n,
{
    if n >= 10 {
        lemma_nat_digits_no_minus(n / 10);
        let d = nat_digits(n / 10);
        assert(nat_digits(n) == d.push(digit_char(n % 10)));
        assert forall|i: int| 0 <= i < nat_digits(n).len() implies nat_digits(n)[i] != '-' by {
            if i < d.len() {
                assert(nat_digits(n)[i] == d[i]);
            }
        }
    } else {
        assert(nat_digits(n) == seq![digit_char(n)]);
    }
}

/// Distinct integers render to distinct decimal strings.
pub proof fn lemma_int_decimal_injective(a: int, b: int)
    requires
        int_decimal(a) == int_decimal(b),
    ensures
        a == b,
{
    lemma_nat_digits_len(if a < 0 { (-a) as nat } else { a as nat });
    lemma_nat_digits_len(if b < 0 { (-b) as nat } else { b as nat });
    if a < 0 && b < 0 {
        assert(int_decimal(a).skip(1) =~= nat_digits((-a) as nat));
        assert(int_decimal(b).skip(1) =~= nat_digits((-b) as nat));
        lemma_nat_digits_injective((-a) as nat, (-b) as nat);
    } else if a < 0 {
        lemma_nat_digits_no_minus(b as nat);
        assert(int_decimal(a)[0] == '-');
        assert(int_decimal(b)[0] != '-');
    } else if b < 0 {
        lemma_nat_digits_no_minus(a as nat);
        assert(int_decimal(b)[0] == '-');
        assert(int_decimal(a)[0] != '-');
    } else {
        lemma_nat_digits_injective(a as nat, b as nat);
    }
}

/// Two jobs of the same project and subject share a key only when they sit at
/// the same level: the key tells levels apart.
pub proof fn lemma_job_key_separates_levels(project: Seq<char>, l1: int, l2: int, subject: Seq<char>)
    requires
        l1 != l2,
    ensures
        job_key_spec(project, l1, subject) != job_key_spec(project, l2, subject),
{
    let tail = seq![':'] + project + seq![':'] + subject;
    let k1 = job_key_spec(project, l1, subject);
    let k2 = job_key_spec(project, l2, subject);
    assert(k1 =~= seq!['L'] + int_decimal(l1) + tail);
    assert(k2 =~= seq!['L'] + int_decimal(l2) + tail);
    if k1 == k2 {
        let d1 = int_decimal(l1);
        let d2 = int_decimal(l2);
        assert(k1.len() == k2.len());
        assert(d1.len() == d2.len());
        assert(k1.subrange(1, 1 + d1.len() as int) =~= d1);
        assert(k2.subrange(1, 1 + d2.len() as int) =~= d2);
        lemma_int_decimal_injective(l1, l2);
    }
}

/// The character a sanitised FTS5 query keeps at a position.
pub open spec fn sanitize_char(c: char) -> char {
    if crate::primitives::char_is_alphanumeric(c) || crate::primitives::char_is_whitespace(c) {
        c
    } else {
        ' '
    }
}

/// Character-wise sanitising: alphanumerics and whitespace are kept, every
/// other character becomes a space.
pub open spec fn sanitize_spec(q: Seq<char>) -> Seq<char> {
    q.map_values(|c: char| sanitize_char(c))
}

/// Sanitise a free-text query for use in an FTS5 `MATCH` parameter.
///
/// Only alphanumeric characters and whitespace are preserved; every other
/// character is replaced with a space. The result is safe to bind directly.
pub fn sanitize_query(query: &str) -> (clean: String)
    ensures
        clean@ == sanitize_spec(query@),
        clean@.len() == query@.len(),
        forall|i: int| 0 <= i < clean@.len() ==>
            crate::primitives::char_is_alphanumeric(#[trigger] clean@[i]) || crate::primitives::char_is_whitespace(clean@[i]),
        forall|i: int| 0 <= i < query@.len() ==> #[trigger] clean@[i] == if crate::primitives::char_is_alphanumeric(query@[i])
            || crate::primitives::char_is_whitespace(query@[i]) { query@[i] } else { ' ' },
{
    let n = query.unicode_len();
    let mut clean = String::new();
    let mut i: usize = 0;
    while i < n
        invariant
            n == query@.len(),
            i <= n,
            clean@ =~= sanitize_spec(query@.take(i as int)),
        decreases n - i,
    {
        let c = query.get_char(i);
        let keep = is_alphanumeric(c) || is_whitespace(c);
        if keep {
            push_char(&mut clean, c);
        } else {
            push_char(&mut clean, ' ');
        }
        proof {
            assert(query@.take(i + 1) =~= query@.take(i as int).push(c));
        }
        i = i + 1;
    }
    proof {
        assert(query@.take(n as int) =~= query@);
        lemma_sanitize_keeps_only_words(query@);
    }
    clean
}

/// What sanitising does at each position: a character that is alphanumeric
/// or whitespace stays as it is, any other character becomes a space; so the
/// result has the query's length and holds only alphanumerics and
/// whitespace.
pub proof fn lemma_sanitize_keeps_only_words(q: Seq<char>)
    ensures
        sanitize_spec(q).len() == q.len(),
        forall|i: int| 0 <= i < q.len() ==> #[trigger] sanitize_spec(q)[i] == if crate::primitives::char_is_alphanumeric(q[i])
            || crate::primitives::char_is_whitespace(q[i]) { q[i] } else { ' ' },
        forall|i: int| 0 <= i < q.len() ==>
            crate::primitives::char_is_alphanumeric(#[trigger] sanitize_spec(q)[i]) || crate::primitives::char_is_whitespace(sanitize_spec(q)[i]),
{
    assert forall|i: int| 0 <= i < q.len() implies
        crate::primitives::char_is_alphanumeric(#[trigger] sanitize_spec(q)[i]) || crate::primitives::char_is_whitespace(sanitize_spec(q)[i]) by {
        assert(crate::primitives::char_is_whitespace(' '));
    }
}

/// Sanitising keeps the query's length in characters, and it is idempotent:
/// a sanitised query passes through unchanged a second time.
pub proof fn lemma_sanitize_idempotent(q: Seq<char>)
    ensures
        sanitize_spec(q).len() == q.len(),
        sanitize_spec(sanitize_spec(q)) == sanitize_spec(q),
{
    assert(sanitize_spec(sanitize_spec(q)) =~= sanitize_spec(q));
}

} // verus!
