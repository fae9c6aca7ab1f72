//! What secret redaction promises: the values it takes out put the config back exactly
//! as it was, so a backup can commit the redacted file and keep the values aside.
use vstd::prelude::*;
use crate::backup::{
    admin_key, redact_one, redact_spec, redacted_marker, restore_one, restore_spec, secret_pattern,
    server_key, splice, taken, value_span,
};
use crate::text::{
    find, find_from, lemma_find_from, lemma_find_from_is, lemma_find_from_none, match_at,
};

verus! {

/// A pattern that cannot overlap the `<REDACTED>` marker: at least as long as the marker
/// and free of its first and last characters.
pub open spec fn clear_of_marker(p: Seq<char>) -> bool {
    p.len() >= 10 && forall|j: int| 0 <= j < p.len() ==> #[trigger] p[j] != '<' && p[j] != '>'
}

proof fn lemma_patterns_clear()
    ensures
        clear_of_marker(secret_pattern(admin_key())),
        clear_of_marker(secret_pattern(server_key())),
{
    let pa = secret_pattern(admin_key());
    let ps = secret_pattern(server_key());
    assert(pa == seq!['A', 'd', 'm', 'i', 'n', 'P', 'a', 's', 's', 'w', 'o', 'r', 'd', '=', '"']);
    assert(ps == seq![
        'S', 'e', 'r', 'v', 'e', 'r', 'P', 'a', 's', 's', 'w', 'o', 'r', 'd', '=', '"',
    ]);
}

/// No occurrence of a marker-clear pattern overlaps a `<REDACTED>` marker.
proof fn lemma_no_cross(x: Seq<char>, a: int, p: Seq<char>, k: int)
    requires
        0 <= a,
        a + 10 <= x.len(),
        x.subrange(a, a + 10) == redacted_marker(),
        clear_of_marker(p),
        match_at(x, p, k),
    ensures
        k + p.len() <= a || k >= a + 10,
{
    if !(k + p.len() <= a || k >= a + 10) {
        let w = x.subrange(k, k + p.len());
        if k <= a {
            assert(w[a - k] == x[a]);
            assert(x[a] == x.subrange(a, a + 10)[0]);
            assert(p[a - k] != '<');
        } else {
            assert(w[a + 9 - k] == x[a + 9]);
            assert(x[a + 9] == x.subrange(a, a + 10)[9]);
            assert(p[a + 9 - k] != '>');
        }
    }
}

/// The facts behind a value span: the pattern's first occurrence, and the first quote
/// after it.
proof fn lemma_span_facts(t: Seq<char>, key: Seq<char>)
    requires
        value_span(t, key) is Some,
    ensures
        ({
            let (a, b) = value_span(t, key)->Some_0;
            let p = secret_pattern(key);
            &&& p.len() <= a <= b < t.len()
            &&& match_at(t, p, a - p.len())
            &&& forall|k: int| 0 <= k < a - p.len() ==> !match_at(t, p, k)
            &&& t[b] == '"'
            &&& forall|k: int| a <= k < b ==> t[k] != '"'
        }),
{
    let p = secret_pattern(key);
    lemma_find_from(t, p, 0);
    let s = find(t, p)->Some_0;
    lemma_find_from(t, seq!['"'], s + p.len());
    let (a, b) = value_span(t, key)->Some_0;
    assert(t.subrange(b, b + 1)[0] == t[b]);
    assert forall|k: int| a <= k < b implies t[k] != '"' by {
        assert(!match_at(t, seq!['"'], k));
        if t[k] == '"' {
            assert(t.subrange(k, k + 1) =~= seq!['"']);
        }
    }
}

/// A value span from the facts behind it.
proof fn lemma_span_is(t: Seq<char>, key: Seq<char>, s: int, b: int)
    requires
        0 <= s,
        match_at(t, secret_pattern(key), s),
        forall|k: int| 0 <= k < s ==> !match_at(t, secret_pattern(key), k),
        s + secret_pattern(key).len() <= b < t.len(),
        t[b] == '"',
        forall|k: int| s + secret_pattern(key).len() <= k < b ==> t[k] != '"',
    ensures
        value_span(t, key) == Some((s + secret_pattern(key).len(), b)),
{
    let p = secret_pattern(key);
    lemma_find_from_is(t, p, 0, s);
    assert(match_at(t, seq!['"'], b)) by {
        assert(t.subrange(b, b + 1) == seq!['"']);
    }
    assert forall|k: int| s + p.len() <= k < b implies !match_at(t, seq!['"'], k) by {
        assert(t.subrange(k, k + 1)[0] == t[k]);
    }
    lemma_find_from_is(t, seq!['"'], s + p.len(), b);
}

/// Putting a redacted value back gives the text it was taken from.
pub proof fn lemma_restore_undoes_redact(t: Seq<char>, key: Seq<char>)
    requires
        redact_one(t, key).1 is Some,
    ensures
        restore_one(redact_one(t, key).0, key, redact_one(t, key).1->Some_0) == t,
{
    let p = secret_pattern(key);
    lemma_span_facts(t, key);
    let (a, b) = value_span(t, key)->Some_0;
    let r = redacted_marker();
    let u = splice(t, a, b, r);
    let s = a - p.len();
    assert(u.subrange(s, s + p.len()) == t.subrange(s, s + p.len()));
    assert forall|k: int| 0 <= k < s implies !match_at(u, p, k) by {
        if match_at(u, p, k) {
            assert(u.subrange(k, k + p.len()) =~= t.subrange(k, k + p.len()));
            assert(match_at(t, p, k));
        }
    }
    assert(u[a + 10] == t[b]);
    assert forall|k: int| a <= k < a + 10 implies u[k] != '"' by {
        assert(u[k] == r[k - a]);
    }
    lemma_span_is(u, key, s, a + 10);
    assert(splice(u, a, a + 10, t.subrange(a, b)) == t);
}

/// After redacting one key, a marker-clear pattern that did not occur still does not.
proof fn lemma_absent_after_splice(t: Seq<char>, a: int, b: int, p: Seq<char>)
    requires
        0 <= a <= b <= t.len(),
        find(t, p) is None,
        clear_of_marker(p),
    ensures
        find(splice(t, a, b, redacted_marker()), p) is None,
{
    let u = splice(t, a, b, redacted_marker());
    let d = 10 - (b - a);
    lemma_find_from(t, p, 0);
    assert(u.subrange(a, a + 10) == redacted_marker());
    assert forall|k: int| 0 <= k implies !match_at(u, p, k) by {
        if match_at(u, p, k) {
            lemma_no_cross(u, a, p, k);
            if k + p.len() <= a {
                assert(u.subrange(k, k + p.len()) =~= t.subrange(k, k + p.len()));
                assert(match_at(t, p, k));
            } else {
                assert(u.subrange(k, k + p.len()) =~= t.subrange(k - d, k - d + p.len()));
                assert(match_at(t, p, k - d));
            }
        }
    }
    lemma_find_from_none(u, p, 0);
}

/// The two secret entries of `t` are apart: the closing quote of the earlier one comes
/// before the key of the later one.
pub open spec fn spans_apart(t: Seq<char>, k1: Seq<char>, k2: Seq<char>) -> bool {
    value_span(t, k1) matches Some((a1, b1)) && value_span(t, k2) matches Some((a2, b2)) && (b1
        < a2 - secret_pattern(k2).len() || b2 < a1 - secret_pattern(k1).len())
}

/// Where the span of `k2` moves when the value of `k1` is replaced by the marker.
pub open spec fn moved_span(t: Seq<char>, k1: Seq<char>, k2: Seq<char>) -> (int, int) {
    let (a1, b1) = value_span(t, k1)->Some_0;
    let (a2, b2) = value_span(t, k2)->Some_0;
    if b2 < a1 {
        (a2, b2)
    } else {
        (a2 + 10 - (b1 - a1), b2 + 10 - (b1 - a1))
    }
}

/// Replacing the value of `k1` by the marker moves the span of `k2` but keeps its value.
proof fn lemma_span_after_splice(t: Seq<char>, k1: Seq<char>, k2: Seq<char>)
    requires
        spans_apart(t, k1, k2),
        clear_of_marker(secret_pattern(k2)),
    ensures
        ({
            let (a1, b1) = value_span(t, k1)->Some_0;
            let (a2, b2) = value_span(t, k2)->Some_0;
            let u = splice(t, a1, b1, redacted_marker());
            let (c, e) = moved_span(t, k1, k2);
            &&& value_span(u, k2) == Some((c, e))
            &&& u.subrange(c, e) == t.subrange(a2, b2)
        }),
{
    lemma_span_facts(t, k1);
    lemma_span_facts(t, k2);
    let (a1, b1) = value_span(t, k1)->Some_0;
    let (a2, b2) = value_span(t, k2)->Some_0;
    let p2 = secret_pattern(k2);
    let s2 = a2 - p2.len();
    let r = redacted_marker();
    let u = splice(t, a1, b1, r);
    let d = 10 - (b1 - a1);
    assert(u.subrange(a1, a1 + 10) == r);
    if b2 < a1 {
        assert(u.subrange(s2, s2 + p2.len()) == t.subrange(s2, s2 + p2.len()));
        assert forall|k: int| 0 <= k < s2 implies !match_at(u, p2, k) by {
            if match_at(u, p2, k) {
                assert(u.subrange(k, k + p2.len()) =~= t.subrange(k, k + p2.len()));
                assert(match_at(t, p2, k));
            }
        }
        assert forall|k: int| a2 <= k <= b2 implies u[k] == t[k] by {}
        lemma_span_is(u, k2, s2, b2);
        assert(u.subrange(a2, b2) == t.subrange(a2, b2));
    } else {
        assert(u.subrange(s2 + d, s2 + d + p2.len()) == t.subrange(s2, s2 + p2.len()));
        assert forall|k: int| 0 <= k < s2 + d implies !match_at(u, p2, k) by {
            if match_at(u, p2, k) {
                lemma_no_cross(u, a1, p2, k);
                if k + p2.len() <= a1 {
                    assert(u.subrange(k, k + p2.len()) =~= t.subrange(k, k + p2.len()));
                    assert(match_at(t, p2, k));
                } else {
                    assert(u.subrange(k, k + p2.len()) =~= t.subrange(k - d, k - d + p2.len()));
                    assert(match_at(t, p2, k - d));
                }
            }
        }
        assert forall|k: int| a2 + d <= k <= b2 + d implies u[k] == t[k - d] by {}
        lemma_span_is(u, k2, s2 + d, b2 + d);
        assert(u.subrange(a2 + d, b2 + d) == t.subrange(a2, b2));
    }
}

/// The configurations on which redaction is undone by restoring: each secret key that
/// occurs has a terminated value, and when both do, the two entries are apart.
pub open spec fn secrets_apart(t: Seq<char>) -> bool {
    &&& find(t, secret_pattern(admin_key())) is None || value_span(t, admin_key()) is Some
    &&& find(t, secret_pattern(server_key())) is None || value_span(t, server_key()) is Some
    &&& (value_span(t, admin_key()) is Some && value_span(t, server_key()) is Some) ==> spans_apart(
        t,
        admin_key(),
        server_key(),
    )
}

proof fn lemma_restore_one_pair(t: Seq<char>, x: (Seq<char>, Seq<char>))
    ensures
        restore_spec(t, seq![x]) == restore_one(t, x.0, x.1),
{
    assert(seq![x].drop_last() == Seq::<(Seq<char>, Seq<char>)>::empty());
    assert(seq![x].last() == x);
    assert(restore_spec(t, Seq::<(Seq<char>, Seq<char>)>::empty()) == t);
}

proof fn lemma_restore_two_pairs(t: Seq<char>, x: (Seq<char>, Seq<char>), y: (Seq<char>, Seq<char>))
    ensures
        restore_spec(t, seq![x] + seq![y]) == restore_one(restore_one(t, x.0, x.1), y.0, y.1),
{
    assert((seq![x] + seq![y]).drop_last() == seq![x]);
    assert((seq![x] + seq![y]).last() == y);
    lemma_restore_one_pair(t, x);
}

/// The round trip on configurations whose secret entries are apart.
proof fn lemma_restore_after_redact_apart(t: Seq<char>)
    requires
        secrets_apart(t),
    ensures
        restore_spec(redact_spec(t).0, redact_spec(t).1) == t,
{
    lemma_patterns_clear();
    let ka = admin_key();
    let ks = server_key();
    let (t1, o1) = redact_one(t, ka);
    let (t2, o2) = redact_one(t1, ks);
    let empty = Seq::<(Seq<char>, Seq<char>)>::empty();
    if o1 is None {
        assert(t1 == t);
        if o2 is None {
            assert(taken(ka, o1) + taken(ks, o2) == empty);
        } else {
            assert(taken(ka, o1) + taken(ks, o2) == seq![(ks, o2->Some_0)]);
            lemma_restore_one_pair(t2, (ks, o2->Some_0));
            lemma_restore_undoes_redact(t, ks);
        }
    } else {
        let (a1, b1) = value_span(t, ka)->Some_0;
        if value_span(t, ks) is None {
            assert(find(t, secret_pattern(ks)) is None);
            lemma_span_facts(t, ka);
            lemma_absent_after_splice(t, a1, b1, secret_pattern(ks));
            assert(o2 is None);
            assert(taken(ka, o1) + taken(ks, o2) == seq![(ka, o1->Some_0)]);
            lemma_restore_one_pair(t2, (ka, o1->Some_0));
            lemma_restore_undoes_redact(t, ka);
        } else {
            let (a2, b2) = value_span(t, ks)->Some_0;
            lemma_span_after_splice(t, ka, ks);
            if o2 is None {
                assert(taken(ka, o1) + taken(ks, o2) == seq![(ka, o1->Some_0)]);
                lemma_restore_one_pair(t2, (ka, o1->Some_0));
                lemma_restore_undoes_redact(t, ka);
            } else {
                // both taken out: undo the admin value, then the server value
                let va = o1->Some_0;
                let vs = o2->Some_0;
                assert(taken(ka, o1) + taken(ks, o2) == seq![(ka, va)] + seq![(ks, vs)]);
                lemma_restore_two_pairs(t2, (ka, va), (ks, vs));
                let u = redact_one(t, ks).0;
                assert(redact_one(t, ks).1 == Some(vs));
                lemma_span_after_splice(t, ks, ka);
                let (c, e) = moved_span(t, ks, ka);
                let (c2, e2) = moved_span(t, ka, ks);
                lemma_span_facts(t, ka);
                lemma_span_facts(t, ks);
                assert(redact_one(u, ka).1 == Some(va));
                assert(splice(u, c, e, redacted_marker()) == splice(t1, c2, e2, redacted_marker()));
                assert(redact_one(u, ka).0 == t2);
                lemma_restore_undoes_redact(u, ka);
                lemma_restore_undoes_redact(t, ks);
            }
        }
    }
}

/// Redacting a key leaves its value span where it starts, holding the marker when a value
/// was taken out and the value as it was (empty, or already the marker) otherwise.
proof fn lemma_redact_one_span(t: Seq<char>, key: Seq<char>)
    requires
        value_span(t, key) is Some,
    ensures
        ({
            let (a, b) = value_span(t, key)->Some_0;
            let u = redact_one(t, key).0;
            &&& redact_one(t, key).1 is Some ==> value_span(u, key) == Some((a, a + 10))
                && u.subrange(a, a + 10) == redacted_marker()
            &&& redact_one(t, key).1 is None ==> u == t && (t.subrange(a, b).len() == 0
                || t.subrange(a, b) == redacted_marker())
        }),
{
    lemma_span_facts(t, key);
    let (a, b) = value_span(t, key)->Some_0;
    if redact_one(t, key).1 is Some {
        let p = secret_pattern(key);
        let r = redacted_marker();
        let u = splice(t, a, b, r);
        let s = a - p.len();
        assert(u.subrange(s, s + p.len()) == t.subrange(s, s + p.len()));
        assert forall|k: int| 0 <= k < s implies !match_at(u, p, k) by {
            if match_at(u, p, k) {
                assert(u.subrange(k, k + p.len()) =~= t.subrange(k, k + p.len()));
                assert(match_at(t, p, k));
            }
        }
        assert(u[a + 10] == t[b]);
        assert forall|k: int| a <= k < a + 10 implies u[k] != '"' by {
            assert(u[k] == r[k - a]);
        }
        lemma_span_is(u, key, s, a + 10);
        assert(u.subrange(a, a + 10) =~= r);
    }
}

/// What a committed config shows where the secrets were: after redaction, the value of
/// the first `AdminPassword="…"` and of the first `ServerPassword="…"` is `<REDACTED>`
/// or empty, for a config that has both entries and whose secret values hold no `=`.
pub proof fn lemma_redacted_secrets_hidden(t: Seq<char>)
    requires
        secret_values_plain(t),
        value_span(t, admin_key()) is Some,
        value_span(t, server_key()) is Some,
    ensures
        ({
            let out = redact_spec(t).0;
            &&& value_span(out, admin_key()) matches Some((a, b)) && (out.subrange(a, b)
                == redacted_marker() || a == b)
            &&& value_span(out, server_key()) matches Some((a, b)) && (out.subrange(a, b)
                == redacted_marker() || a == b)
        }),
{
    lemma_plain_apart(t);
    lemma_patterns_clear();
    let ka = admin_key();
    let ks = server_key();
    let (t1, o1) = redact_one(t, ka);
    let (t2, o2) = redact_one(t1, ks);
    lemma_span_facts(t, ka);
    lemma_span_facts(t, ks);
    let (a1, b1) = value_span(t, ka)->Some_0;
    let (a2, b2) = value_span(t, ks)->Some_0;
    lemma_redact_one_span(t, ka);
    let e1 = if o1 is Some {
        a1 + 10
    } else {
        b1
    };
    assert(value_span(t1, ka) == Some((a1, e1)));
    // where the server entry stands in t1
    let (c2, f2) = if o1 is Some {
        lemma_span_after_splice(t, ka, ks);
        moved_span(t, ka, ks)
    } else {
        (a2, b2)
    };
    assert(value_span(t1, ks) == Some((c2, f2)));
    assert(t1.subrange(c2, f2) == t.subrange(a2, b2)) by {
        if o1 is Some {
            lemma_span_after_splice(t, ka, ks);
        }
    }
    lemma_redact_one_span(t1, ks);
    if o2 is None {
        assert(t2 == t1);
    } else {
        lemma_span_facts(t1, ka);
        lemma_span_facts(t1, ks);
        assert(spans_apart(t1, ks, ka));
        lemma_span_after_splice(t1, ks, ka);
        assert(t2 == splice(t1, c2, f2, redacted_marker()));
        let (c, e) = moved_span(t1, ks, ka);
        assert(value_span(t2, ka) == Some((c, e)));
        assert(t2.subrange(c, e) == t1.subrange(a1, e1));
    }
}


/// The value of `key`'s first terminated entry, if it has one, holds no `=`.
pub open spec fn value_free_of_eq(t: Seq<char>, key: Seq<char>) -> bool {
    value_span(t, key) matches Some((a, b)) ==> !t.subrange(a, b).contains('=')
}

/// The configurations redaction is meant for: the values of the secret keys hold no `=`.
pub open spec fn secret_values_plain(t: Seq<char>) -> bool {
    value_free_of_eq(t, admin_key()) && value_free_of_eq(t, server_key())
}

/// The characters of the two secret patterns, one by one.
proof fn lemma_pattern_chars()
    ensures
        forall|j: int| 0 <= j < 15 ==> #[trigger] secret_pattern(admin_key())[j] != 'S'
            && secret_pattern(admin_key())[j] != 'A' || j == 0,
        forall|j: int| 0 <= j < 14 ==> #[trigger] secret_pattern(admin_key())[j] != '"',
        secret_pattern(admin_key())[0] == 'A' && secret_pattern(admin_key())[13] == '='
            && secret_pattern(admin_key())[14] == '"' && secret_pattern(admin_key()).len() == 15,
        forall|j: int| 0 <= j < 16 ==> #[trigger] secret_pattern(server_key())[j] != 'A'
            && (secret_pattern(server_key())[j] != 'S' || j == 0),
        forall|j: int| 0 <= j < 15 ==> #[trigger] secret_pattern(server_key())[j] != '"',
        secret_pattern(server_key())[0] == 'S' && secret_pattern(server_key())[14] == '='
            && secret_pattern(server_key())[15] == '"' && secret_pattern(server_key()).len() == 16,
{
    let pa = secret_pattern(admin_key());
    let ps = secret_pattern(server_key());
    assert(pa == seq!['A', 'd', 'm', 'i', 'n', 'P', 'a', 's', 's', 'w', 'o', 'r', 'd', '=', '"']);
    assert(ps == seq![
        'S', 'e', 'r', 'v', 'e', 'r', 'P', 'a', 's', 's', 'w', 'o', 'r', 'd', '=', '"',
    ]);
}

/// The characters of `t` where `p` matches.
proof fn lemma_match_chars(t: Seq<char>, p: Seq<char>, s: int)
    requires
        match_at(t, p, s),
    ensures
        forall|j: int| 0 <= j < p.len() ==> #[trigger] t[s + j] == p[j],
{
    assert forall|j: int| 0 <= j < p.len() implies #[trigger] t[s + j] == p[j] by {
        assert(t.subrange(s, s + p.len())[j] == t[s + j]);
    }
}

/// With plain values, two terminated secret entries never overlap.
proof fn lemma_plain_apart(t: Seq<char>)
    requires
        value_span(t, admin_key()) is Some,
        value_span(t, server_key()) is Some,
        secret_values_plain(t),
    ensures
        spans_apart(t, admin_key(), server_key()),
{
    let ka = admin_key();
    let ks = server_key();
    lemma_span_facts(t, ka);
    lemma_span_facts(t, ks);
    lemma_pattern_chars();
    let pa = secret_pattern(ka);
    let ps = secret_pattern(ks);
    let (a1, b1) = value_span(t, ka)->Some_0;
    let (a2, b2) = value_span(t, ks)->Some_0;
    let s1 = a1 - 15;
    let s2 = a2 - 16;
    lemma_match_chars(t, pa, s1);
    lemma_match_chars(t, ps, s2);
    assert(t[s1 + 0] == pa[0]);
    assert(t[s2 + 0] == ps[0]);
    if !(b1 < s2 || b2 < s1) {
        if s1 < s2 {
            if s2 < a1 {
                assert(t[s1 + (s2 - s1)] == pa[s2 - s1]);
            } else if b1 > s2 + 14 {
                assert(t.subrange(a1, b1)[s2 + 14 - a1] == t[s2 + 14]);
                assert(t[s2 + 14] == ps[14]);
            } else {
                assert(t[s2 + (b1 - s2)] == ps[b1 - s2]);
            }
        } else {
            assert(s2 < s1);
            if s1 < a2 {
                assert(t[s2 + (s1 - s2)] == ps[s1 - s2]);
            } else if b2 > s1 + 13 {
                assert(t.subrange(a2, b2)[s1 + 13 - a2] == t[s1 + 13]);
                assert(t[s1 + 13] == pa[13]);
            } else {
                assert(t[s1 + (b2 - s1)] == pa[b2 - s1]);
            }
        }
    }
}


/// With plain values, a `ServerPassword="` entry that has no closing quote still has none
/// after the admin value is replaced by the marker.
proof fn lemma_unclosed_stays(t: Seq<char>)
    requires
        value_span(t, admin_key()) is Some,
        find(t, secret_pattern(server_key())) is Some,
        value_span(t, server_key()) is None,
        secret_values_plain(t),
    ensures
        ({
            let (a1, b1) = value_span(t, admin_key())->Some_0;
            value_span(splice(t, a1, b1, redacted_marker()), server_key()) is None
        }),
{
    let ka = admin_key();
    let ks = server_key();
    lemma_patterns_clear();
    lemma_pattern_chars();
    lemma_span_facts(t, ka);
    let pa = secret_pattern(ka);
    let ps = secret_pattern(ks);
    let q = seq!['"'];
    let (a1, b1) = value_span(t, ka)->Some_0;
    let s1 = a1 - 15;
    lemma_find_from(t, ps, 0);
    let s2 = find(t, ps)->Some_0;
    lemma_find_from(t, q, s2 + 16);
    assert(find_from(t, q, s2 + 16) is None);
    lemma_match_chars(t, pa, s1);
    lemma_match_chars(t, ps, s2);
    assert(t[s1 + 0] == pa[0]);
    assert(t[s2 + 0] == ps[0]);
    // the admin entry ends before the server key starts
    if s1 > s2 {
        if s1 < s2 + 16 {
            assert(t[s2 + (s1 - s2)] == ps[s1 - s2]);
        } else {
            assert(t[s1 + 14] == pa[14]);
            assert(t.subrange(s1 + 14, s1 + 15) =~= q);
            assert(match_at(t, q, s1 + 14));
        }
    }
    assert(s1 < s2);
    if b1 >= s2 + 16 {
        assert(t.subrange(b1, b1 + 1) =~= q);
        assert(match_at(t, q, b1));
    } else if b1 == s2 + 15 {
        assert(t.subrange(a1, b1)[s2 + 14 - a1] == t[s2 + 14]);
        assert(t[s2 + 14] == ps[14]);
    } else if b1 >= s2 {
        assert(t[s2 + (b1 - s2)] == ps[b1 - s2]);
    }
    assert(b1 < s2);
    let r = redacted_marker();
    let u = splice(t, a1, b1, r);
    let d = 10 - (b1 - a1);
    assert(u.subrange(a1, a1 + 10) == r);
    assert(u.subrange(s2 + d, s2 + d + 16) =~= t.subrange(s2, s2 + 16));
    assert forall|k: int| 0 <= k < s2 + d implies !match_at(u, ps, k) by {
        if match_at(u, ps, k) {
            lemma_no_cross(u, a1, ps, k);
            if k + ps.len() <= a1 {
                assert(u.subrange(k, k + ps.len()) =~= t.subrange(k, k + ps.len()));
                assert(match_at(t, ps, k));
            } else {
                assert(u.subrange(k, k + ps.len()) =~= t.subrange(k - d, k - d + ps.len()));
                assert(match_at(t, ps, k - d));
            }
        }
    }
    lemma_find_from_is(u, ps, 0, s2 + d);
    assert forall|k: int| s2 + d + 16 <= k implies !match_at(u, q, k) by {
        if match_at(u, q, k) {
            assert(u.subrange(k, k + 1) =~= t.subrange(k - d, k - d + 1));
            assert(match_at(t, q, k - d));
        }
    }
    lemma_find_from_none(u, q, s2 + d + 16);
}

/// Round trip: restoring the values that `redact_config` took out, in the order it
/// returned them, gives back the text redaction started from, whenever the values of the
/// secret keys hold no `=`.
pub proof fn lemma_restore_after_redact(t: Seq<char>)
    requires
        secret_values_plain(t),
    ensures
        restore_spec(redact_spec(t).0, redact_spec(t).1) == t,
{
    lemma_patterns_clear();
    let ka = admin_key();
    let ks = server_key();
    let (t1, o1) = redact_one(t, ka);
    let (t2, o2) = redact_one(t1, ks);
    let empty = Seq::<(Seq<char>, Seq<char>)>::empty();
    if value_span(t, ka) is Some && value_span(t, ks) is Some {
        lemma_plain_apart(t);
        lemma_restore_after_redact_apart(t);
    } else if value_span(t, ka) is None || find(t, secret_pattern(ks)) is None {
        if value_span(t, ka) is Some {
            assert(secrets_apart(t));
            lemma_restore_after_redact_apart(t);
        } else {
            assert(t1 == t);
            if o2 is None {
                assert(taken(ka, o1) + taken(ks, o2) == empty);
            } else {
                assert(taken(ka, o1) + taken(ks, o2) == seq![(ks, o2->Some_0)]);
                lemma_restore_one_pair(t2, (ks, o2->Some_0));
                lemma_restore_undoes_redact(t, ks);
            }
        }
    } else {
        if o1 is None {
            assert(t1 == t);
            assert(o2 is None);
            assert(taken(ka, o1) + taken(ks, o2) == empty);
        } else {
            lemma_unclosed_stays(t);
            assert(o2 is None);
            assert(taken(ka, o1) + taken(ks, o2) == seq![(ka, o1->Some_0)]);
            lemma_restore_one_pair(t2, (ka, o1->Some_0));
            lemma_restore_undoes_redact(t, ka);
        }
    }
}

} // verus!
