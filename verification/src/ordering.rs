//! Orderings used when listing: text in `String`'s order, and stable newest-first orders.
use vstd::prelude::*;
use crate::text::{chars_eq, chars_of, ends_with, ends_with_chars, texts};

verus! {

broadcast use vstd::string::group_string_axioms;

// ---------------------------------------------------------------- text order

/// `a` comes before `b` in `String`'s order: compared character by character, a proper
/// prefix first. (On UTF-8 text this is the byte order that `String::cmp` uses, since
/// UTF-8 keeps the order of code points.)
pub open spec fn lex_lt(a: Seq<char>, b: Seq<char>) -> bool
    decreases a.len(),
{
    if a.len() == 0 {
        b.len() > 0
    } else if b.len() == 0 {
        false
    } else if a[0] != b[0] {
        (a[0] as int) < (b[0] as int)
    } else {
        lex_lt(a.drop_first(), b.drop_first())
    }
}

/// Of two texts, at most one comes before the other.
pub proof fn lemma_lex_asymmetric(a: Seq<char>, b: Seq<char>)
    ensures
        !(lex_lt(a, b) && lex_lt(b, a)),
    decreases a.len(),
{
    if a.len() > 0 && b.len() > 0 && a[0] == b[0] {
        lemma_lex_asymmetric(a.drop_first(), b.drop_first());
    }
}

/// The order is transitive.
pub proof fn lemma_lex_transitive(a: Seq<char>, b: Seq<char>, c: Seq<char>)
    requires
        lex_lt(a, b),
        lex_lt(b, c),
    ensures
        lex_lt(a, c),
    decreases a.len(),
{
    if a.len() > 0 && b.len() > 0 && c.len() > 0 && a[0] == b[0] && b[0] == c[0] {
        lemma_lex_transitive(a.drop_first(), b.drop_first(), c.drop_first());
    }
}

/// Of two different texts, one comes before the other.
pub proof fn lemma_lex_total(a: Seq<char>, b: Seq<char>)
    requires
        a != b,
    ensures
        lex_lt(a, b) || lex_lt(b, a),
    decreases a.len(),
{
    if a.len() > 0 && b.len() > 0 && a[0] == b[0] {
        if a.drop_first() == b.drop_first() {
            assert(a =~= seq![a[0]] + a.drop_first());
            assert(b =~= seq![b[0]] + b.drop_first());
        }
        lemma_lex_total(a.drop_first(), b.drop_first());
    } else if a.len() == 0 && b.len() == 0 {
        assert(a =~= b);
    } else if a.len() > 0 && b.len() > 0 {
        assert((a[0] as int) != (b[0] as int));
    }
}

/// Does `a` come before `b`?
pub fn lex_less(a: &[char], b: &[char]) -> (r: bool)
    ensures
        r == lex_lt(a@, b@),
{
    let mut i: usize = 0;
    assert(a@.skip(0) == a@ && b@.skip(0) == b@);
    while i < a.len() && i < b.len()
        invariant
            i <= a@.len(),
            i <= b@.len(),
            lex_lt(a@, b@) == lex_lt(a@.skip(i as int), b@.skip(i as int)),
        decreases a@.len() - i,
    {
        if a[i] != b[i] {
            return a[i] < b[i];
        }
        assert(a@.skip(i as int).drop_first() == a@.skip(i + 1));
        assert(b@.skip(i as int).drop_first() == b@.skip(i + 1));
        i += 1;
    }
    i == a.len() && i < b.len()
}

/// Does text `a` come before text `b`?
pub fn str_less(a: &str, b: &str) -> (r: bool)
    ensures
        r == lex_lt(a@, b@),
{
    let x = chars_of(a);
    let y = chars_of(b);
    lex_less(&x, &y)
}

// ---------------------------------------------------------------- ascending, no repeats

/// Each text comes before every later one: ascending, with no repeats.
pub open spec fn strictly_ascending(s: Seq<Seq<char>>) -> bool {
    forall|i: int, j: int| 0 <= i < j < s.len() ==> lex_lt(#[trigger] s[i], #[trigger] s[j])
}

/// An ascending list without repeats is fixed by what it holds: two such lists with the
/// same elements are the same list.
pub proof fn lemma_strictly_ascending_unique(a: Seq<Seq<char>>, b: Seq<Seq<char>>)
    requires
        strictly_ascending(a),
        strictly_ascending(b),
        forall|k: Seq<char>| a.contains(k) <==> b.contains(k),
    ensures
        a == b,
    decreases a.len(),
{
    if a.len() == 0 {
        if b.len() > 0 {
            assert(b.contains(b[0]));
        }
        assert(a =~= b);
    } else {
        assert(a.contains(a[0]));
        assert(b.len() > 0);
        assert(b.contains(b[0]));
        let k = choose|k: int| 0 <= k < b.len() && b[k] == a[0];
        let m = choose|m: int| 0 <= m < a.len() && a[m] == b[0];
        if a[0] != b[0] {
            assert(m > 0 && k > 0);
            assert(lex_lt(a[0], a[m]));
            assert(lex_lt(b[0], b[k]));
            lemma_lex_asymmetric(a[0], b[0]);
        }
        let ta = a.drop_first();
        let tb = b.drop_first();
        assert forall|i: int, j: int| 0 <= i < j < ta.len() implies lex_lt(
            #[trigger] ta[i],
            #[trigger] ta[j],
        ) by {
            assert(ta[i] == a[i + 1] && ta[j] == a[j + 1]);
        }
        assert forall|i: int, j: int| 0 <= i < j < tb.len() implies lex_lt(
            #[trigger] tb[i],
            #[trigger] tb[j],
        ) by {
            assert(tb[i] == b[i + 1] && tb[j] == b[j + 1]);
        }
        assert forall|x: Seq<char>| ta.contains(x) <==> tb.contains(x) by {
            if ta.contains(x) {
                let i = choose|i: int| 0 <= i < ta.len() && ta[i] == x;
                assert(a[i + 1] == x);
                assert(lex_lt(a[0], x));
                lemma_lex_asymmetric(x, x);
                assert(a.contains(x));
                let j = choose|j: int| 0 <= j < b.len() && b[j] == x;
                assert(j != 0);
                assert(tb[j - 1] == x);
            }
            if tb.contains(x) {
                let i = choose|i: int| 0 <= i < tb.len() && tb[i] == x;
                assert(b[i + 1] == x);
                assert(lex_lt(b[0], x));
                lemma_lex_asymmetric(x, x);
                assert(b.contains(x));
                let j = choose|j: int| 0 <= j < a.len() && a[j] == x;
                assert(j != 0);
                assert(ta[j - 1] == x);
            }
        }
        lemma_strictly_ascending_unique(ta, tb);
        assert(a =~= seq![a[0]] + ta);
        assert(b =~= seq![b[0]] + tb);
    }
}

/// The texts of the first components of the pairs.
pub open spec fn firsts(v: Seq<(String, String)>) -> Seq<Seq<char>> {
    v.map_values(|p: (String, String)| p.0@)
}

/// The first components of `pairs` in ascending order without repeats: what sorting them
/// and then dropping adjacent duplicates leaves.
pub fn sorted_unique_keys(pairs: &[(String, String)]) -> (r: Vec<String>)
    ensures
        strictly_ascending(texts(r@)),
        forall|k: Seq<char>| texts(r@).contains(k) <==> firsts(pairs@).contains(k),
{
    let mut out: Vec<String> = Vec::new();
    let mut n: usize = 0;
    while n < pairs.len()
        invariant
            n <= pairs@.len(),
            strictly_ascending(texts(out@)),
            forall|k: Seq<char>|
                texts(out@).contains(k) <==> firsts(pairs@.take(n as int)).contains(k),
        decreases pairs@.len() - n,
    {
        let key = &pairs[n].0;
        let ghost ks = texts(out@);
        let mut j: usize = 0;
        while j < out.len() && str_less(out[j].as_str(), key.as_str())
            invariant
                j <= out@.len(),
                ks == texts(out@),
                forall|m: int| 0 <= m < j ==> lex_lt(#[trigger] ks[m], key@),
            decreases out@.len() - j,
        {
            j += 1;
        }
        let ghost before = firsts(pairs@.take(n as int));
        let ghost after = firsts(pairs@.take(n + 1));
        assert(after == before.push(key@));
        if j < out.len() && out[j] == *key {
            assert(ks[j as int] == key@);
            assert forall|k: Seq<char>| #[trigger] after.contains(k) implies ks.contains(k) by {
                if k != key@ {
                    let w = choose|w: int| 0 <= w < after.len() && #[trigger] after[w] == k;
                    assert(before[w] == k);
                }
            }
            assert forall|k: Seq<char>| #[trigger] ks.contains(k) implies after.contains(k) by {
                assert(before.contains(k));
                let w = choose|w: int| 0 <= w < before.len() && #[trigger] before[w] == k;
                assert(after[w] == k);
            }
        } else {
            proof {
                if j < out@.len() {
                    lemma_lex_total(ks[j as int], key@);
                }
            }
            out.insert(j, key.clone());
            let ghost nk = texts(out@);
            assert(nk == ks.insert(j as int, key@));
            assert forall|a: int, b: int| 0 <= a < b < nk.len() implies lex_lt(
                #[trigger] nk[a],
                #[trigger] nk[b],
            ) by {
                if b < j {
                    assert(nk[a] == ks[a] && nk[b] == ks[b]);
                } else if b == j {
                    assert(nk[a] == ks[a]);
                } else if a > j {
                    assert(nk[a] == ks[a - 1] && nk[b] == ks[b - 1]);
                } else if a == j {
                    assert(nk[b] == ks[b - 1]);
                    if b - 1 > j {
                        lemma_lex_transitive(key@, ks[j as int], ks[b - 1]);
                    }
                } else {
                    assert(nk[a] == ks[a] && nk[b] == ks[b - 1]);
                }
            }
            assert forall|k: Seq<char>| #[trigger] nk.contains(k) implies after.contains(k) by {
                let w = choose|w: int| 0 <= w < nk.len() && #[trigger] nk[w] == k;
                if k == key@ {
                    assert(after[n as int] == k);
                } else {
                    if w < j {
                        assert(ks[w] == k);
                    } else {
                        assert(ks[w - 1] == k);
                    }
                    assert(ks.contains(k));
                    assert(before.contains(k));
                    let v = choose|v: int| 0 <= v < before.len() && #[trigger] before[v] == k;
                    assert(after[v] == k);
                }
            }
            assert forall|k: Seq<char>| #[trigger] after.contains(k) implies nk.contains(k) by {
                if k == key@ {
                    assert(nk[j as int] == k);
                } else {
                    let w = choose|w: int| 0 <= w < after.len() && #[trigger] after[w] == k;
                    assert(before[w] == k);
                    assert(before.contains(k));
                    assert(ks.contains(k));
                    let v = choose|v: int| 0 <= v < ks.len() && #[trigger] ks[v] == k;
                    if v < j {
                        assert(nk[v] == k);
                    } else {
                        assert(nk[v + 1] == k);
                    }
                }
            }
        }
        n += 1;
    }
    assert(pairs@.take(pairs@.len() as int) == pairs@);
    out
}

// ---------------------------------------------------------------- newest first

/// `p` lists the indices `0..n` from the greatest key down, keeping items with equal keys
/// in the order given: the order a stable sort with the comparison reversed gives.
/// `gt(a, b)` says that item `a`'s key is greater than item `b`'s.
pub open spec fn stable_descending(p: Seq<usize>, n: nat, gt: spec_fn(int, int) -> bool) -> bool {
    &&& p.len() == n
    &&& forall|i: int| 0 <= i < p.len() ==> #[trigger] p[i] < n
    &&& forall|i: int, j: int| 0 <= i < j < p.len() ==> #[trigger] p[i] != #[trigger] p[j]
    &&& forall|i: int, j: int|
        0 <= i < j < p.len() ==> gt(#[trigger] p[i] as int, #[trigger] p[j] as int) || (!gt(
            p[j] as int,
            p[i] as int,
        ) && p[i] < p[j])
}

/// An order stays such an order when the keys are compared by another relation that
/// agrees on the items.
pub proof fn lemma_stable_descending_same_keys(
    p: Seq<usize>,
    n: nat,
    g1: spec_fn(int, int) -> bool,
    g2: spec_fn(int, int) -> bool,
)
    requires
        stable_descending(p, n, g1),
        forall|a: int, b: int| 0 <= a < n && 0 <= b < n ==> #[trigger] g1(a, b) == g2(a, b),
    ensures
        stable_descending(p, n, g2),
{
    assert forall|i: int, j: int| 0 <= i < j < p.len() implies g2(
        #[trigger] p[i] as int,
        #[trigger] p[j] as int,
    ) || (!g2(p[j] as int, p[i] as int) && p[i] < p[j]) by {
        assert(p[i] < n && p[j] < n);
        assert(g1(p[i] as int, p[j] as int) == g2(p[i] as int, p[j] as int));
        assert(g1(p[j] as int, p[i] as int) == g2(p[j] as int, p[i] as int));
    }
}

/// Indices of `keys` from the greatest key down, equal keys in the order given.
pub fn order_by_number_desc(keys: &[u64]) -> (r: Vec<usize>)
    ensures
        stable_descending(r@, keys@.len(), |a: int, b: int| keys@[a] > keys@[b]),
{
    let ghost gt = |a: int, b: int| keys@[a] > keys@[b];
    let mut p: Vec<usize> = Vec::new();
    let mut i: usize = 0;
    while i < keys.len()
        invariant
            i <= keys@.len(),
            gt == (|a: int, b: int| keys@[a] > keys@[b]),
            stable_descending(p@, i as nat, gt),
        decreases keys@.len() - i,
    {
        let ghost old_p = p@;
        let mut j: usize = 0;
        while j < p.len() && keys[p[j]] >= keys[i]
            invariant
                j <= p@.len(),
                p@ == old_p,
                i < keys@.len(),
                stable_descending(old_p, i as nat, gt),
                forall|m: int| 0 <= m < j ==> keys@[#[trigger] old_p[m] as int] >= keys@[i as int],
            decreases p@.len() - j,
        {
            j += 1;
        }
        p.insert(j, i);
        let ghost np = p@;
        assert(np == old_p.insert(j as int, i));
        assert forall|a: int, b: int| 0 <= a < b < np.len() implies gt(
            #[trigger] np[a] as int,
            #[trigger] np[b] as int,
        ) || (!gt(np[b] as int, np[a] as int) && np[a] < np[b]) by {
            if b < j {
                assert(np[a] == old_p[a] && np[b] == old_p[b]);
            } else if b == j {
                assert(np[a] == old_p[a]);
            } else if a > j {
                assert(np[a] == old_p[a - 1] && np[b] == old_p[b - 1]);
            } else if a == j {
                assert(np[b] == old_p[b - 1]);
                if b - 1 > j {
                    assert(old_p[j as int] != old_p[b - 1]);
                }
            } else {
                assert(np[a] == old_p[a] && np[b] == old_p[b - 1]);
            }
        }
        assert forall|a: int, b: int| 0 <= a < b < np.len() implies #[trigger] np[a]
            != #[trigger] np[b] by {
            if b < j {
                assert(np[a] == old_p[a] && np[b] == old_p[b]);
            } else if b == j {
                assert(np[a] == old_p[a]);
            } else if a > j {
                assert(np[a] == old_p[a - 1] && np[b] == old_p[b - 1]);
            } else if a == j {
                assert(np[b] == old_p[b - 1]);
            } else {
                assert(np[a] == old_p[a] && np[b] == old_p[b - 1]);
            }
        }
        assert forall|a: int| 0 <= a < np.len() implies #[trigger] np[a] < i + 1 by {
            if a < j {
                assert(np[a] == old_p[a]);
            } else if a > j {
                assert(np[a] == old_p[a - 1]);
            }
        }
        i += 1;
    }
    p
}


/// Indices of `keys` from the last in text order down, equal keys in the order given.
pub fn order_by_text_desc(keys: &[String]) -> (r: Vec<usize>)
    ensures
        stable_descending(r@, keys@.len(), |a: int, b: int| lex_lt(keys@[b]@, keys@[a]@)),
{
    let ghost gt = |a: int, b: int| lex_lt(keys@[b]@, keys@[a]@);
    let mut p: Vec<usize> = Vec::new();
    let mut i: usize = 0;
    while i < keys.len()
        invariant
            i <= keys@.len(),
            gt == (|a: int, b: int| lex_lt(keys@[b]@, keys@[a]@)),
            stable_descending(p@, i as nat, gt),
        decreases keys@.len() - i,
    {
        let ghost old_p = p@;
        let mut j: usize = 0;
        while j < p.len() && !str_less(keys[p[j]].as_str(), keys[i].as_str())
            invariant
                j <= p@.len(),
                p@ == old_p,
                i < keys@.len(),
                stable_descending(old_p, i as nat, gt),
                forall|m: int| 0 <= m < j ==> !lex_lt(keys@[#[trigger] old_p[m] as int]@, keys@[i as int]@),
            decreases p@.len() - j,
        {
            j += 1;
        }
        p.insert(j, i);
        let ghost np = p@;
        assert(np == old_p.insert(j as int, i));
        assert forall|a: int, b: int| 0 <= a < b < np.len() implies gt(
            #[trigger] np[a] as int,
            #[trigger] np[b] as int,
        ) || (!gt(np[b] as int, np[a] as int) && np[a] < np[b]) by {
            if b < j {
                assert(np[a] == old_p[a] && np[b] == old_p[b]);
            } else if b == j {
                assert(np[a] == old_p[a]);
            } else if a > j {
                assert(np[a] == old_p[a - 1] && np[b] == old_p[b - 1]);
            } else if a == j {
                assert(np[b] == old_p[b - 1]);
                if b - 1 > j {
                    let x = keys@[old_p[j as int] as int]@;
                    let y = keys@[old_p[b - 1] as int]@;
                    let z = keys@[i as int]@;
                    assert(old_p[j as int] != old_p[b - 1]);
                    assert(lex_lt(x, z));
                    if y != x {
                        lemma_lex_total(x, y);
                        lemma_lex_transitive(y, x, z);
                    }
                    lemma_lex_asymmetric(y, z);
                }
            } else {
                assert(np[a] == old_p[a] && np[b] == old_p[b - 1]);
            }
        }
        assert forall|a: int, b: int| 0 <= a < b < np.len() implies #[trigger] np[a]
            != #[trigger] np[b] by {
            if b < j {
                assert(np[a] == old_p[a] && np[b] == old_p[b]);
            } else if b == j {
                assert(np[a] == old_p[a]);
            } else if a > j {
                assert(np[a] == old_p[a - 1] && np[b] == old_p[b - 1]);
            } else if a == j {
                assert(np[b] == old_p[b - 1]);
            } else {
                assert(np[a] == old_p[a] && np[b] == old_p[b - 1]);
            }
        }
        assert forall|a: int| 0 <= a < np.len() implies #[trigger] np[a] < i + 1 by {
            if a < j {
                assert(np[a] == old_p[a]);
            } else if a > j {
                assert(np[a] == old_p[a - 1]);
            }
        }
        i += 1;
    }
    p
}

// ---------------------------------------------------------------- uniqueness

/// No value occurs twice.
pub open spec fn distinct_ints(s: Seq<int>) -> bool {
    forall|i: int, j: int| 0 <= i < j < s.len() ==> #[trigger] s[i] != #[trigger] s[j]
}

/// Distinct values in `0..m` number at most `m`.
proof fn lemma_distinct_bound(s: Seq<int>, m: int)
    requires
        0 <= m,
        distinct_ints(s),
        forall|i: int| 0 <= i < s.len() ==> 0 <= #[trigger] s[i] < m,
    ensures
        s.len() <= m,
    decreases m,
{
    if s.len() == 0 {
        return;
    }
    assert(0 <= s[0] < m);
    if s.contains(m - 1) {
        let k = choose|k: int| 0 <= k < s.len() && s[k] == m - 1;
        let t = s.remove(k);
        assert forall|i: int, j: int| 0 <= i < j < t.len() implies #[trigger] t[i]
            != #[trigger] t[j] by {
            let a = if i < k {
                i
            } else {
                i + 1
            };
            let b = if j < k {
                j
            } else {
                j + 1
            };
            assert(t[i] == s[a] && t[j] == s[b]);
        }
        assert forall|i: int| 0 <= i < t.len() implies 0 <= #[trigger] t[i] < m - 1 by {
            let a = if i < k {
                i
            } else {
                i + 1
            };
            assert(t[i] == s[a]);
            assert(a != k);
        }
        lemma_distinct_bound(t, m - 1);
    } else {
        assert forall|i: int| 0 <= i < s.len() implies 0 <= #[trigger] s[i] < m - 1 by {
            assert(s[i] != m - 1);
        }
        lemma_distinct_bound(s, m - 1);
    }
}

/// `n` distinct values in `0..n` are all of them.
proof fn lemma_distinct_covers(s: Seq<int>, n: int, x: int)
    requires
        distinct_ints(s),
        s.len() == n,
        forall|i: int| 0 <= i < s.len() ==> 0 <= #[trigger] s[i] < n,
        0 <= x < n,
    ensures
        s.contains(x),
{
    if !s.contains(x) {
        let t = s.map_values(|v: int| if v > x {
            v - 1
        } else {
            v
        });
        assert forall|i: int, j: int| 0 <= i < j < t.len() implies #[trigger] t[i]
            != #[trigger] t[j] by {
            assert(s[i] != s[j]);
            assert(s[i] != x && s[j] != x);
        }
        assert forall|i: int| 0 <= i < t.len() implies 0 <= #[trigger] t[i] < n - 1 by {
            assert(s[i] != x);
        }
        lemma_distinct_bound(t, n - 1);
    }
}

/// Two lists of the same values, each strictly ordered by the same asymmetric relation,
/// are the same list.
proof fn lemma_ordered_unique(a: Seq<int>, b: Seq<int>, before: spec_fn(int, int) -> bool)
    requires
        forall|i: int, j: int| 0 <= i < j < a.len() ==> before(#[trigger] a[i], #[trigger] a[j]),
        forall|i: int, j: int| 0 <= i < j < b.len() ==> before(#[trigger] b[i], #[trigger] b[j]),
        forall|x: int, y: int| #[trigger] before(x, y) ==> !before(y, x),
        forall|k: int| a.contains(k) <==> b.contains(k),
    ensures
        a == b,
    decreases a.len(),
{
    if a.len() == 0 {
        if b.len() > 0 {
            assert(b.contains(b[0]));
        }
        assert(a =~= b);
    } else {
        assert(a.contains(a[0]));
        assert(b.contains(b[0]));
        let k = choose|k: int| 0 <= k < b.len() && b[k] == a[0];
        let m = choose|m: int| 0 <= m < a.len() && a[m] == b[0];
        if a[0] != b[0] {
            assert(m > 0 && k > 0);
            assert(before(a[0], a[m]));
            assert(before(b[0], b[k]));
        }
        let ta = a.drop_first();
        let tb = b.drop_first();
        assert forall|i: int, j: int| 0 <= i < j < ta.len() implies before(
            #[trigger] ta[i],
            #[trigger] ta[j],
        ) by {
            assert(ta[i] == a[i + 1] && ta[j] == a[j + 1]);
        }
        assert forall|i: int, j: int| 0 <= i < j < tb.len() implies before(
            #[trigger] tb[i],
            #[trigger] tb[j],
        ) by {
            assert(tb[i] == b[i + 1] && tb[j] == b[j + 1]);
        }
        assert forall|x: int| ta.contains(x) <==> tb.contains(x) by {
            if ta.contains(x) {
                let i = choose|i: int| 0 <= i < ta.len() && ta[i] == x;
                assert(a[i + 1] == x);
                assert(before(a[0], x));
                assert(a.contains(x));
                let j = choose|j: int| 0 <= j < b.len() && b[j] == x;
                assert(j != 0);
                assert(tb[j - 1] == x);
            }
            if tb.contains(x) {
                let i = choose|i: int| 0 <= i < tb.len() && tb[i] == x;
                assert(b[i + 1] == x);
                assert(before(b[0], x));
                assert(b.contains(x));
                let j = choose|j: int| 0 <= j < a.len() && a[j] == x;
                assert(j != 0);
                assert(ta[j - 1] == x);
            }
        }
        lemma_ordered_unique(ta, tb, before);
        assert(a =~= seq![a[0]] + ta);
        assert(b =~= seq![b[0]] + tb);
    }
}

/// A stable order from the greatest key down is fixed by the keys: for an asymmetric
/// comparison `gt`, two such orders of `0..n` are the same order.
pub proof fn lemma_stable_descending_unique(
    p: Seq<usize>,
    q: Seq<usize>,
    n: nat,
    gt: spec_fn(int, int) -> bool,
)
    requires
        stable_descending(p, n, gt),
        stable_descending(q, n, gt),
        forall|a: int, b: int| #[trigger] gt(a, b) ==> !gt(b, a),
    ensures
        p == q,
{
    let before = |x: int, y: int| gt(x, y) || (!gt(y, x) && x < y);
    let a = p.map_values(|v: usize| v as int);
    let b = q.map_values(|v: usize| v as int);
    assert forall|x: int, y: int| #[trigger] before(x, y) implies !before(y, x) by {
        if gt(x, y) {
            assert(!gt(y, x));
        }
    }
    assert forall|i: int, j: int| 0 <= i < j < a.len() implies before(
        #[trigger] a[i],
        #[trigger] a[j],
    ) by {
        assert(a[i] == p[i] as int && a[j] == p[j] as int);
        assert(gt(p[i] as int, p[j] as int) || (!gt(p[j] as int, p[i] as int) && p[i] < p[j]));
    }
    assert forall|i: int, j: int| 0 <= i < j < b.len() implies before(
        #[trigger] b[i],
        #[trigger] b[j],
    ) by {
        assert(b[i] == q[i] as int && b[j] == q[j] as int);
        assert(gt(q[i] as int, q[j] as int) || (!gt(q[j] as int, q[i] as int) && q[i] < q[j]));
    }
    assert(distinct_ints(a)) by {
        assert forall|i: int, j: int| 0 <= i < j < a.len() implies #[trigger] a[i]
            != #[trigger] a[j] by {
            assert(p[i] != p[j]);
        }
    }
    assert(distinct_ints(b)) by {
        assert forall|i: int, j: int| 0 <= i < j < b.len() implies #[trigger] b[i]
            != #[trigger] b[j] by {
            assert(q[i] != q[j]);
        }
    }
    assert forall|i: int| 0 <= i < a.len() implies 0 <= #[trigger] a[i] < n by {
        assert(p[i] < n);
    }
    assert forall|i: int| 0 <= i < b.len() implies 0 <= #[trigger] b[i] < n by {
        assert(q[i] < n);
    }
    assert forall|x: int| a.contains(x) <==> b.contains(x) by {
        if a.contains(x) {
            let i = choose|i: int| 0 <= i < a.len() && a[i] == x;
            lemma_distinct_covers(b, n as int, x);
        }
        if b.contains(x) {
            let i = choose|i: int| 0 <= i < b.len() && b[i] == x;
            lemma_distinct_covers(a, n as int, x);
        }
    }
    lemma_ordered_unique(a, b, before);
    assert forall|i: int| 0 <= i < p.len() implies p[i] == q[i] by {
        assert(a[i] == b[i]);
    }
    assert(p =~= q);
}

} // verus!
