//! What the settings parser and serializer promise together: a file written by
//! `serialize` reads back, through `parse`, as exactly the configuration it was written
//! from (header, keys, values and their order), whether that configuration was built by
//! hand or read by `parse` from any file; and what updates do.
use vstd::prelude::*;
use crate::palconfig::{
    apply_all, apply_one, close_from, entry, header_from, header_of, join_pairs, key_index,
    key_index_from, lemma_key_index_from, option_marker, parse_spec, read_pairs, read_segment, scan,
    segments, serialize_spec, step, top_comma_from, PalConfigModel, Segment,
};
use crate::text::{
    find, find_from, is_ws, lemma_find_from, lemma_find_from_is, match_at, trim, trim_end,
    trim_start,
};

verus! {

/// The scanner state after reading `s` from the start of a value.
pub open spec fn scan0(s: Seq<char>) -> (int, bool) {
    scan((0, false), s)
}

/// A character the scanner ignores.
pub open spec fn plain_char(c: char) -> bool {
    c != '"' && c != '(' && c != ')'
}

/// `w` ends outside quotes and parentheses, and never shows `c` there.
pub open spec fn safe_for(w: Seq<char>, c: char) -> bool {
    &&& scan0(w) == (0int, false)
    &&& forall|j: int| 0 <= j < w.len() && scan0(w.take(j)) == (0int, false) ==> #[trigger] w[j] != c
}

/// A key that reads back as itself: no `=`, `,`, quotes or parentheses, and no
/// whitespace at either end.
pub open spec fn key_reads_back(k: Seq<char>) -> bool {
    &&& forall|j: int| 0 <= j < k.len() ==> plain_char(#[trigger] k[j]) && k[j] != '=' && k[j] != ','
    &&& k.len() > 0 ==> !is_ws(k[0]) && !is_ws(k.last())
}

/// A value that reads back as itself: quotes and parentheses balanced, no `)` or `,`
/// outside them, and no trailing whitespace.
pub open spec fn value_reads_back(v: Seq<char>) -> bool {
    &&& safe_for(v, ')')
    &&& safe_for(v, ',')
    &&& v.len() > 0 ==> !is_ws(v.last())
}

/// A header that reads back as itself: a trimmed single line starting with `[` that
/// does not itself contain the `OptionSettings=(` marker.
pub open spec fn header_reads_back(h: Seq<char>) -> bool {
    &&& h.len() > 0
    &&& h[0] == '['
    &&& trim(h) == h
    &&& !h.contains('\n')
    &&& find(h, option_marker()) is None
}

/// A pair whose `key=value` entry keeps clear of top-level `)` and `,` and reads back as
/// the pair itself.
pub open spec fn entry_reads_back(p: (Seq<char>, Seq<char>)) -> bool {
    &&& safe_for(entry(p), ')')
    &&& safe_for(entry(p), ',')
    &&& read_segment(entry(p)) == Segment::Pair(p.0, p.1)
}

pub proof fn lemma_scan_append(st: (int, bool), a: Seq<char>, b: Seq<char>)
    ensures
        scan(st, a + b) == scan(scan(st, a), b),
    decreases b.len(),
{
    if b.len() == 0 {
        assert(a + b == a);
    } else {
        assert((a + b).drop_last() == a + b.drop_last());
        assert((a + b).last() == b.last());
        lemma_scan_append(st, a, b.drop_last());
    }
}

pub proof fn lemma_scan_plain(st: (int, bool), w: Seq<char>)
    requires
        forall|j: int| 0 <= j < w.len() ==> plain_char(#[trigger] w[j]),
    ensures
        scan(st, w) == st,
    decreases w.len(),
{
    if w.len() > 0 {
        assert(plain_char(w[w.len() - 1]));
        lemma_scan_plain(st, w.drop_last());
    }
}

pub proof fn lemma_scan_take_step(w: Seq<char>, j: int)
    requires
        0 <= j < w.len(),
    ensures
        scan0(w.take(j + 1)) == step(scan0(w.take(j)), w[j]),
{
    assert(w.take(j + 1).drop_last() == w.take(j));
}

pub proof fn lemma_safe_plain(w: Seq<char>, c: char)
    requires
        forall|j: int| 0 <= j < w.len() ==> plain_char(#[trigger] w[j]) && w[j] != c,
    ensures
        safe_for(w, c),
{
    lemma_scan_plain((0, false), w);
}

pub proof fn lemma_safe_append(a: Seq<char>, b: Seq<char>, c: char)
    requires
        safe_for(a, c),
        safe_for(b, c),
    ensures
        safe_for(a + b, c),
{
    lemma_scan_append((0, false), a, b);
    assert forall|j: int| 0 <= j < (a + b).len() && scan0((a + b).take(j)) == (0int, false) implies #[trigger] (a
        + b)[j] != c by {
        if j < a.len() {
            assert((a + b).take(j) == a.take(j));
        } else {
            assert((a + b).take(j) == a + b.take(j - a.len()));
            lemma_scan_append((0, false), a, b.take(j - a.len()));
            assert(b[j - a.len()] == (a + b)[j]);
        }
    }
}

pub proof fn lemma_entry_safe(p: (Seq<char>, Seq<char>), c: char)
    requires
        key_reads_back(p.0),
        value_reads_back(p.1),
        c == ')' || c == ',',
    ensures
        safe_for(entry(p), c),
{
    lemma_safe_plain(p.0, c);
    lemma_safe_plain(seq!['='], c);
    lemma_safe_append(p.0, seq!['='], c);
    lemma_safe_append(p.0 + seq!['='], p.1, c);
}

pub proof fn lemma_join_safe(ps: Seq<(Seq<char>, Seq<char>)>)
    requires
        forall|i: int| 0 <= i < ps.len() ==> entry_reads_back(#[trigger] ps[i]),
    ensures
        safe_for(join_pairs(ps), ')'),
    decreases ps.len(),
{
    if ps.len() == 0 {
        lemma_safe_plain(Seq::<char>::empty(), ')');
    } else if ps.len() == 1 {
        assert(entry_reads_back(ps[0]));
    } else {
        let init = ps.drop_last();
        assert forall|i: int| 0 <= i < init.len() implies entry_reads_back(#[trigger] init[i]) by {
            assert(init[i] == ps[i]);
        }
        lemma_join_safe(init);
        assert(entry_reads_back(ps[ps.len() - 1]));
        lemma_safe_plain(seq![','], ')');
        lemma_safe_append(join_pairs(init), seq![','], ')');
        lemma_safe_append(join_pairs(init) + seq![','], entry(ps.last()), ')');
    }
}

/// Reading through a block that is safe for `)` does not end the parenthesised region.
#[verifier::spinoff_prover]
pub proof fn lemma_close_skip(t: Seq<char>, i: int, w: Seq<char>, j: int)
    requires
        0 <= i,
        i + w.len() <= t.len(),
        t.subrange(i, i + w.len()) == w,
        safe_for(w, ')'),
        0 <= j <= w.len(),
    ensures
        close_from(t, i + j, ((scan0(w.take(j)).0 + 1), scan0(w.take(j)).1)) == close_from(
            t,
            i + w.len(),
            (1, false),
        ),
    decreases w.len() - j,
{
    if j == w.len() {
        assert(w.take(j) == w);
    } else {
        let st = scan0(w.take(j));
        assert(t[i + j] == w[j]);
        assert(!(w[j] == ')' && st == (0int, false)));
        lemma_scan_take_step(w, j);
        let lifted = (st.0 + 1, st.1);
        assert(close_from(t, i + j, lifted) == close_from(t, i + j + 1, step(lifted, w[j])));
        lemma_close_skip(t, i, w, j + 1);
    }
}

/// Reading through a block that is safe for `,` finds no top-level comma in it.
#[verifier::spinoff_prover]
pub proof fn lemma_comma_skip(s: Seq<char>, i: int, w: Seq<char>, j: int)
    requires
        0 <= i,
        i + w.len() <= s.len(),
        s.subrange(i, i + w.len()) == w,
        safe_for(w, ','),
        0 <= j <= w.len(),
    ensures
        top_comma_from(s, i + j, scan0(w.take(j))) == top_comma_from(s, i + w.len(), (0, false)),
    decreases w.len() - j,
{
    if j == w.len() {
        assert(w.take(j) == w);
    } else {
        let st = scan0(w.take(j));
        assert(s[i + j] == w[j]);
        assert(!(w[j] == ',' && st == (0int, false)));
        lemma_scan_take_step(w, j);
        assert(top_comma_from(s, i + j, st) == top_comma_from(s, i + j + 1, step(st, w[j])));
        lemma_comma_skip(s, i, w, j + 1);
    }
}

pub proof fn lemma_join_front(ps: Seq<(Seq<char>, Seq<char>)>)
    requires
        ps.len() >= 2,
    ensures
        join_pairs(ps) == entry(ps[0]) + seq![','] + join_pairs(ps.drop_first()),
    decreases ps.len(),
{
    let rest = ps.drop_first();
    if ps.len() == 2 {
        assert(rest.len() == 1);
        assert(ps.drop_last().len() == 1);
        assert(ps.drop_last()[0] == ps[0]);
        assert(rest[0] == ps.last());
        assert(join_pairs(ps.drop_last()) == entry(ps[0]));
        assert(join_pairs(rest) == entry(ps.last()));
    } else {
        lemma_join_front(ps.drop_last());
        assert(ps.drop_last().drop_first() == rest.drop_last());
        assert(ps.drop_last()[0] == ps[0]);
        assert(rest.last() == ps.last());
        let a = entry(ps[0]);
        let b = join_pairs(rest.drop_last());
        let c = entry(ps.last());
        assert(join_pairs(rest) == b + seq![','] + c);
        assert(join_pairs(ps) == (a + seq![','] + b) + seq![','] + c);
        assert((a + seq![','] + b) + seq![','] + c == a + seq![','] + (b + seq![','] + c));
    }
}

/// One `key=value` entry reads back as its pair.
pub proof fn lemma_read_entry(p: (Seq<char>, Seq<char>))
    requires
        key_reads_back(p.0),
        value_reads_back(p.1),
    ensures
        read_segment(entry(p)) == Segment::Pair(p.0, p.1),
{
    let (k, v) = p;
    let e = entry(p);
    assert(e.len() > 0);
    if k.len() > 0 {
        assert(e[0] == k[0]);
    } else {
        assert(e[0] == '=');
    }
    assert(trim_start(e) == e);
    if v.len() > 0 {
        assert(e.last() == v.last());
    } else {
        assert(e.last() == '=');
    }
    assert(trim_end(e) == e);
    assert(match_at(e, seq!['='], k.len() as int)) by {
        assert(e.subrange(k.len() as int, k.len() as int + 1) == seq!['=']);
    }
    assert forall|m: int| 0 <= m < k.len() implies !match_at(e, seq!['='], m) by {
        assert(e[m] == k[m]);
        assert(e.subrange(m, m + 1)[0] == e[m]);
    }
    lemma_find_from_is(e, seq!['='], 0, k.len() as int);
    assert(e.take(k.len() as int) == k);
    assert(e.skip(k.len() as int + 1) == v);
    assert(trim_start(k) == k);
    assert(trim_end(k) == k);
}

/// A block with no top-level comma is one segment.
proof fn lemma_segments_single(e: Seq<char>)
    requires
        safe_for(e, ','),
    ensures
        segments(e) == seq![e],
{
    assert(e.subrange(0, e.len() as int) == e);
    lemma_comma_skip(e, 0, e, 0);
    assert(e.take(0) == Seq::<char>::empty());
}

/// A block with no top-level comma, then a comma, is the first segment.
proof fn lemma_segments_split(e: Seq<char>, r: Seq<char>)
    requires
        safe_for(e, ','),
    ensures
        segments(e + seq![','] + r) == seq![e] + segments(r),
{
    let s = e + seq![','] + r;
    assert(s.subrange(0, e.len() as int) == e);
    lemma_comma_skip(s, 0, e, 0);
    assert(e.take(0) == Seq::<char>::empty());
    assert(s[e.len() as int] == ',');
    assert(top_comma_from(s, 0, (0, false)) == Some(e.len() as int));
    assert(s.take(e.len() as int) == e);
    assert(s.skip(e.len() as int + 1) == r);
}

/// The comma-joined entries split back into exactly the pairs.
pub proof fn lemma_segments_join(ps: Seq<(Seq<char>, Seq<char>)>)
    requires
        ps.len() > 0,
        forall|i: int| 0 <= i < ps.len() ==> entry_reads_back(#[trigger] ps[i]),
    ensures
        read_pairs(segments(join_pairs(ps))) == Ok::<_, Seq<char>>(ps),
    decreases ps.len(),
{
    let e = entry(ps[0]);
    assert(entry_reads_back(ps[0]));
    let p0 = (ps[0].0, ps[0].1);
    if ps.len() == 1 {
        lemma_segments_single(e);
        assert(seq![e][0] == e);
        assert(seq![e].drop_first() == Seq::<Seq<char>>::empty());
        let empty = Seq::<(Seq<char>, Seq<char>)>::empty();
        assert(read_pairs(Seq::<Seq<char>>::empty()) == Ok::<_, Seq<char>>(empty));
        assert(read_pairs(seq![e]) == Ok::<_, Seq<char>>(seq![p0] + empty));
        assert(seq![p0] + empty == ps);
    } else {
        let rest = ps.drop_first();
        assert forall|i: int| 0 <= i < rest.len() implies entry_reads_back(#[trigger] rest[i]) by {
            assert(rest[i] == ps[i + 1]);
        }
        lemma_segments_join(rest);
        lemma_join_front(ps);
        let r = join_pairs(rest);
        lemma_segments_split(e, r);
        let segs = seq![e] + segments(r);
        assert(segs[0] == e);
        assert(segs.drop_first() == segments(r));
        assert(read_pairs(segs) == Ok::<_, Seq<char>>(seq![p0] + rest));
        assert(seq![p0] + rest == ps);
    }
}

/// The text `serialize` writes for `m` when it accepts it.
pub open spec fn written(m: PalConfigModel) -> Seq<char> {
    m.header + seq!['\n'] + option_marker() + join_pairs(m.pairs) + seq![')', '\n']
}

proof fn lemma_marker_found(m: PalConfigModel)
    requires
        header_reads_back(m.header),
    ensures
        find(written(m), option_marker()) == Some(m.header.len() as int + 1),
{
    let h = m.header;
    let mk = option_marker();
    let out = written(m);
    assert(mk.len() == 16);
    let hl = h.len() as int;
    assert(out.subrange(hl + 1, hl + 17) == mk);
    assert(forall|x: int| 0 <= x < 16 ==> mk[x] != '\n');
    lemma_find_from(h, mk, 0);
    assert forall|k: int| 0 <= k < hl + 1 implies !match_at(out, mk, k) by {
        if match_at(out, mk, k) {
            if k + 16 <= hl {
                assert(out.subrange(k, k + 16) == h.subrange(k, k + 16));
                assert(match_at(h, mk, k));
            } else {
                assert(out.subrange(k, k + 16)[hl - k] == out[hl]);
                assert(out[hl] == '\n');
            }
        }
    }
    lemma_find_from_is(out, mk, 0, hl + 1);
}

proof fn lemma_close_found(m: PalConfigModel)
    requires
        forall|i: int| 0 <= i < m.pairs.len() ==> entry_reads_back(#[trigger] m.pairs[i]),
    ensures
        close_from(written(m), m.header.len() as int + 16, (0, false)) == Some(
            m.header.len() as int + 17 + join_pairs(m.pairs).len(),
        ),
        written(m).subrange(m.header.len() as int + 17, m.header.len() as int + 17 + join_pairs(m.pairs).len())
            == join_pairs(m.pairs),
{
    let h = m.header;
    let inner = join_pairs(m.pairs);
    let out = written(m);
    let hl = h.len() as int;
    let open = hl + 16;
    assert(option_marker().len() == 16);
    assert(out[open] == '(');
    assert(close_from(out, open, (0, false)) == close_from(out, open + 1, (1, false)));
    lemma_join_safe(m.pairs);
    assert(out.subrange(open + 1, open + 1 + inner.len()) == inner);
    lemma_close_skip(out, open + 1, inner, 0);
    assert(inner.take(0) == Seq::<char>::empty());
    let end = open + 1 + inner.len();
    assert(out[end] == ')');
    assert(close_from(out, end, (1, false)) == Some(end));
}

proof fn lemma_header_found(m: PalConfigModel)
    requires
        header_reads_back(m.header),
    ensures
        header_of(written(m)) == m.header,
{
    let h = m.header;
    let out = written(m);
    let hl = h.len() as int;
    assert forall|k: int| 0 <= k < hl implies !match_at(out, seq!['\n'], k) by {
        assert(out.subrange(k, k + 1)[0] == h[k]);
        assert(h.contains(h[k]));
    }
    assert(match_at(out, seq!['\n'], hl)) by {
        assert(out.subrange(hl, hl + 1) == seq!['\n']);
    }
    lemma_find_from_is(out, seq!['\n'], 0, hl);
    assert(out.subrange(0, hl) == h);
    assert(header_from(out, 0) == Some(h));
}

/// Round trip: whatever `serialize` writes, `parse` reads back as the same configuration,
/// provided the header, keys and values are ones the format can carry (see
/// `header_reads_back`, `key_reads_back` and `value_reads_back`).
pub proof fn lemma_serialize_then_parse(m: PalConfigModel)
    requires
        serialize_spec(m) is Ok,
        header_reads_back(m.header),
        forall|i: int|
            0 <= i < m.pairs.len() ==> key_reads_back(#[trigger] m.pairs[i].0) && value_reads_back(
                m.pairs[i].1,
            ),
    ensures
        parse_spec(serialize_spec(m)->Ok_0) == Ok::<_, Seq<char>>(m),
{
    assert forall|i: int| 0 <= i < m.pairs.len() implies entry_reads_back(#[trigger] m.pairs[i]) by {
        lemma_pair_entry(m.pairs[i]);
    }
    lemma_written_reads_back(m);
}

/// A pair whose key and value read back has an entry that reads back.
proof fn lemma_pair_entry(p: (Seq<char>, Seq<char>))
    requires
        key_reads_back(p.0),
        value_reads_back(p.1),
    ensures
        entry_reads_back(p),
{
    lemma_entry_safe(p, ')');
    lemma_entry_safe(p, ',');
    lemma_read_entry(p);
}

/// What `serialize` writes reads back as the configuration, when the header and every
/// entry read back.
proof fn lemma_written_reads_back(m: PalConfigModel)
    requires
        serialize_spec(m) is Ok,
        header_reads_back(m.header),
        forall|i: int| 0 <= i < m.pairs.len() ==> entry_reads_back(#[trigger] m.pairs[i]),
    ensures
        parse_spec(serialize_spec(m)->Ok_0) == Ok::<_, Seq<char>>(m),
{
    assert(serialize_spec(m)->Ok_0 == written(m));
    lemma_marker_found(m);
    lemma_close_found(m);
    lemma_segments_join(m.pairs);
    lemma_header_found(m);
}


// ---------------------------------------------------------------- updates

/// The value of the last update for key `k`, if any.
pub open spec fn last_update(ups: Seq<(Seq<char>, Seq<char>)>, k: Seq<char>) -> Option<Seq<char>>
    decreases ups.len(),
{
    if ups.len() == 0 {
        None
    } else if ups.last().0 == k {
        Some(ups.last().1)
    } else {
        last_update(ups.drop_last(), k)
    }
}

/// Updates never remove, reorder or rename pairs, and leave the value of every pair
/// whose key no update names exactly as it was.
pub proof fn lemma_apply_updates_keeps_untouched(
    ps: Seq<(Seq<char>, Seq<char>)>,
    ups: Seq<(Seq<char>, Seq<char>)>,
)
    ensures
        apply_all(ps, ups).len() >= ps.len(),
        forall|i: int| 0 <= i < ps.len() ==> (#[trigger] apply_all(ps, ups)[i]).0 == ps[i].0,
        forall|i: int|
            0 <= i < ps.len() && last_update(ups, ps[i].0) is None ==> (#[trigger] apply_all(
                ps,
                ups,
            )[i]).1 == ps[i].1,
    decreases ups.len(),
{
    if ups.len() > 0 {
        let q = apply_all(ps, ups.drop_last());
        let u = ups.last();
        lemma_apply_updates_keeps_untouched(ps, ups.drop_last());
        lemma_key_index_from(q, u.0, 0);
        assert forall|i: int|
            0 <= i < ps.len() && last_update(ups, ps[i].0) is None implies (#[trigger] apply_all(
            ps,
            ups,
        )[i]).1 == ps[i].1 by {
            assert(u.0 != ps[i].0);
            assert(last_update(ups.drop_last(), ps[i].0) is None);
        }
    }
}

proof fn lemma_key_index_other(
    q: Seq<(Seq<char>, Seq<char>)>,
    u: (Seq<char>, Seq<char>),
    k: Seq<char>,
)
    requires
        u.0 != k,
    ensures
        key_index(apply_one(q, u), k) == key_index(q, k),
        key_index(q, k) matches Some(i) ==> apply_one(q, u)[i] == q[i],
{
    let r = apply_one(q, u);
    lemma_key_index_from(q, u.0, 0);
    lemma_key_index_from(q, k, 0);
    lemma_key_index_from(r, k, 0);
    assert(forall|m: int| 0 <= m < q.len() ==> (#[trigger] r[m]).0 == q[m].0);
    if key_index(q, u.0) is None {
        assert(r[q.len() as int] == u);
    }
    match key_index(q, k) {
        Some(i) => {
            assert(r[i].0 == k);
            if key_index(r, k) != Some(i) {
                let j = key_index(r, k)->Some_0;
                assert(j < i);
                assert(q[j].0 == k);
            }
        },
        None => {
            if key_index(r, k) is Some {
                let j = key_index(r, k)->Some_0;
                if j < q.len() {
                    assert(q[j].0 == k);
                }
            }
        },
    }
}

/// The last update for a key wins: after the updates, the first pair with that key
/// holds the value of the last update that names it.
pub proof fn lemma_apply_updates_last_wins(
    ps: Seq<(Seq<char>, Seq<char>)>,
    ups: Seq<(Seq<char>, Seq<char>)>,
    k: Seq<char>,
)
    requires
        last_update(ups, k) is Some,
    ensures
        key_index(apply_all(ps, ups), k) matches Some(i) && apply_all(ps, ups)[i].1 == last_update(
            ups,
            k,
        )->Some_0,
    decreases ups.len(),
{
    let q = apply_all(ps, ups.drop_last());
    let u = ups.last();
    if u.0 == k {
        let r = apply_one(q, u);
        lemma_key_index_from(q, k, 0);
        lemma_key_index_from(r, k, 0);
        match key_index(q, k) {
            Some(i) => {
                assert(r[i].0 == k);
                if key_index(r, k) != Some(i) {
                    let j = key_index(r, k)->Some_0;
                    assert(j < i);
                    assert(q[j].0 == k);
                }
            },
            None => {
                assert(r[q.len() as int] == u);
                if key_index(r, k) != Some(q.len() as int) {
                    let j = key_index(r, k)->Some_0;
                    assert(j < q.len());
                    assert(q[j].0 == k);
                }
            },
        }
    } else {
        lemma_apply_updates_last_wins(ps, ups.drop_last(), k);
        lemma_key_index_other(q, u, k);
    }
}


/// Two pair lists with the same keys in the same places find a key at the same place.
proof fn lemma_key_index_same_keys(
    a: Seq<(Seq<char>, Seq<char>)>,
    b: Seq<(Seq<char>, Seq<char>)>,
    k: Seq<char>,
    i: int,
)
    requires
        a.len() == b.len(),
        forall|j: int| 0 <= j < a.len() ==> (#[trigger] a[j]).0 == b[j].0,
    ensures
        key_index_from(a, k, i) == key_index_from(b, k, i),
    decreases a.len() - i,
{
    if 0 <= i < a.len() {
        lemma_key_index_same_keys(a, b, k, i + 1);
    }
}

/// Every key that an update names has a last update.
proof fn lemma_last_update_named(ups: Seq<(Seq<char>, Seq<char>)>, i: int)
    requires
        0 <= i < ups.len(),
    ensures
        last_update(ups, ups[i].0) is Some,
    decreases ups.len(),
{
    if ups.last().0 != ups[i].0 {
        assert(i < ups.len() - 1);
        assert(ups.drop_last()[i] == ups[i]);
        lemma_last_update_named(ups.drop_last(), i);
    }
}

/// Updates whose keys are all present only change values: the first pair of each named
/// key takes the last value given for it, and nothing else changes.
proof fn lemma_apply_present(q: Seq<(Seq<char>, Seq<char>)>, ups: Seq<(Seq<char>, Seq<char>)>)
    requires
        forall|i: int| 0 <= i < ups.len() ==> (#[trigger] key_index(q, ups[i].0)) is Some,
    ensures
        apply_all(q, ups).len() == q.len(),
        forall|j: int| 0 <= j < q.len() ==> (#[trigger] apply_all(q, ups)[j]).0 == q[j].0,
        forall|j: int|
            0 <= j < q.len() ==> (#[trigger] apply_all(q, ups)[j]).1 == if key_index(q, q[j].0)
                == Some(j) && last_update(ups, q[j].0) is Some {
                last_update(ups, q[j].0)->Some_0
            } else {
                q[j].1
            },
    decreases ups.len(),
{
    if ups.len() > 0 {
        let pre = ups.drop_last();
        let u = ups.last();
        assert forall|i: int| 0 <= i < pre.len() implies (#[trigger] key_index(q, pre[i].0)) is Some by {
            assert(pre[i] == ups[i]);
        }
        lemma_apply_present(q, pre);
        let r = apply_all(q, pre);
        lemma_key_index_same_keys(r, q, u.0, 0);
        assert(key_index(q, ups[ups.len() - 1].0) is Some);
        let i = key_index(q, u.0)->Some_0;
        lemma_key_index_from(q, u.0, 0);
        assert(apply_all(q, ups) == r.update(i, (r[i].0, u.1)));
        assert forall|j: int| 0 <= j < q.len() implies (#[trigger] apply_all(q, ups)[j]).1 == if key_index(
            q,
            q[j].0,
        ) == Some(j) && last_update(ups, q[j].0) is Some {
            last_update(ups, q[j].0)->Some_0
        } else {
            q[j].1
        } by {
            if j != i && q[j].0 == u.0 {
                lemma_key_index_from(q, q[j].0, 0);
            }
        }
    }
}

/// Applying the same updates twice gives what applying them once gives.
pub proof fn lemma_apply_updates_twice(
    ps: Seq<(Seq<char>, Seq<char>)>,
    ups: Seq<(Seq<char>, Seq<char>)>,
)
    ensures
        apply_all(apply_all(ps, ups), ups) == apply_all(ps, ups),
{
    let q = apply_all(ps, ups);
    assert forall|i: int| 0 <= i < ups.len() implies (#[trigger] key_index(q, ups[i].0)) is Some by {
        lemma_last_update_named(ups, i);
        lemma_apply_updates_last_wins(ps, ups, ups[i].0);
    }
    lemma_apply_present(q, ups);
    assert forall|j: int| 0 <= j < q.len() implies #[trigger] apply_all(q, ups)[j] == q[j] by {
        if key_index(q, q[j].0) == Some(j) && last_update(ups, q[j].0) is Some {
            lemma_apply_updates_last_wins(ps, ups, q[j].0);
        }
    }
    assert(apply_all(q, ups) =~= q);
}


// ---------------------------------------------------------------- what parse reads

/// `trim_start` drops a whitespace prefix.
proof fn lemma_trim_start_shape(s: Seq<char>) -> (a: int)
    ensures
        0 <= a <= s.len(),
        trim_start(s) == s.skip(a),
        forall|j: int| 0 <= j < a ==> is_ws(#[trigger] s[j]),
        a < s.len() ==> !is_ws(s[a]),
    decreases s.len(),
{
    if s.len() > 0 && is_ws(s[0]) {
        let b = lemma_trim_start_shape(s.drop_first());
        assert(s.drop_first().skip(b) == s.skip(b + 1));
        assert forall|j: int| 0 <= j < b + 1 implies is_ws(#[trigger] s[j]) by {
            if j > 0 {
                assert(s[j] == s.drop_first()[j - 1]);
            }
        }
        if b + 1 < s.len() {
            assert(s[b + 1] == s.drop_first()[b]);
        }
        b + 1
    } else {
        assert(s.skip(0) == s);
        0
    }
}

/// `trim_end` drops a whitespace suffix.
proof fn lemma_trim_end_shape(s: Seq<char>) -> (b: int)
    ensures
        0 <= b <= s.len(),
        trim_end(s) == s.take(b),
        forall|j: int| b <= j < s.len() ==> is_ws(#[trigger] s[j]),
        b > 0 ==> !is_ws(s[b - 1]),
    decreases s.len(),
{
    if s.len() > 0 && is_ws(s.last()) {
        let c = lemma_trim_end_shape(s.drop_last());
        assert(s.drop_last().take(c) == s.take(c));
        assert forall|j: int| c <= j < s.len() implies is_ws(#[trigger] s[j]) by {
            if j < s.len() - 1 {
                assert(s[j] == s.drop_last()[j]);
            }
        }
        if c > 0 {
            assert(s[c - 1] == s.drop_last()[c - 1]);
        }
        c
    } else {
        assert(s.take(s.len() as int) == s);
        s.len() as int
    }
}

/// `trim` keeps a middle slice, with whitespace on either side of it, that neither
/// starts nor ends with whitespace.
proof fn lemma_trim_shape(s: Seq<char>) -> (r: (int, int))
    ensures
        0 <= r.0 <= r.1 <= s.len(),
        trim(s) == s.subrange(r.0, r.1),
        forall|j: int| 0 <= j < r.0 ==> is_ws(#[trigger] s[j]),
        forall|j: int| r.1 <= j < s.len() ==> is_ws(#[trigger] s[j]),
        r.0 < r.1 ==> !is_ws(s[r.0]) && !is_ws(s[r.1 - 1]),
{
    let a = lemma_trim_start_shape(s);
    let u = s.skip(a);
    let b = lemma_trim_end_shape(u);
    assert(u.take(b) == s.subrange(a, a + b));
    assert forall|j: int| a + b <= j < s.len() implies is_ws(#[trigger] s[j]) by {
        assert(s[j] == u[j - a]);
    }
    if b > 0 {
        assert(s[a] == u[0]);
        assert(s[a + b - 1] == u[b - 1]);
    }
    (a, a + b)
}

/// Trimming text that neither starts nor ends with whitespace changes nothing.
proof fn lemma_trim_trimmed(s: Seq<char>)
    requires
        s.len() > 0 ==> !is_ws(s[0]) && !is_ws(s.last()),
    ensures
        trim(s) == s,
{
    assert(trim_start(s) == s);
    assert(trim_end(s) == s);
}

/// Deleting whitespace from a text keeps it clear of top-level `c`.
proof fn lemma_safe_delete(a: Seq<char>, w: Seq<char>, b: Seq<char>, c: char)
    requires
        safe_for(a + w + b, c),
        forall|j: int| 0 <= j < w.len() ==> is_ws(#[trigger] w[j]),
    ensures
        safe_for(a + b, c),
{
    let x = a + w + b;
    let y = a + b;
    assert forall|j: int| 0 <= j < w.len() implies plain_char(#[trigger] w[j]) by {
        assert(is_ws(w[j]));
    }
    lemma_scan_plain(scan0(a), w);
    assert forall|m: int| 0 <= m <= b.len() implies #[trigger] scan0(a + w + b.take(m)) == scan0(
        a + b.take(m),
    ) by {
        lemma_scan_append((0, false), a + w, b.take(m));
        lemma_scan_append((0, false), a, w);
        lemma_scan_append((0, false), a, b.take(m));
    }
    assert(b.take(b.len() as int) == b);
    assert(scan0(x) == scan0(y));
    assert forall|j: int| 0 <= j < y.len() && scan0(y.take(j)) == (0int, false) implies #[trigger] y[j]
        != c by {
        if j < a.len() {
            assert(y.take(j) == x.take(j));
            assert(y[j] == x[j]);
        } else {
            let m = j - a.len();
            assert(y.take(j) == a + b.take(m));
            assert(x.take(j + w.len()) == a + w + b.take(m));
            assert(y[j] == x[j + w.len()]);
        }
    }
}

/// What `close_from` has read, from `s` on, is clear of a top-level `)` and ends at
/// depth zero outside quotes.
#[verifier::spinoff_prover]
proof fn lemma_close_scan(t: Seq<char>, s: int, i: int, end: int)
    requires
        0 <= s <= i,
        close_from(t, i, (scan0(t.subrange(s, i)).0 + 1, scan0(t.subrange(s, i)).1)) == Some(end),
        forall|j: int| s <= j < i && scan0(t.subrange(s, j)) == (0int, false) ==> #[trigger] t[j] != ')',
    ensures
        safe_for(t.subrange(s, end), ')'),
    decreases t.len() - i,
{
    let st = scan0(t.subrange(s, i));
    let lifted = (st.0 + 1, st.1);
    crate::palconfig::lemma_close_range(t, i, lifted);
    let held = t[i] == ')' && !lifted.1 && lifted.0 == 1;
    if !held {
        assert(close_from(t, i, lifted) == close_from(t, i + 1, step(lifted, t[i])));
        crate::palconfig::lemma_close_range(t, i + 1, step(lifted, t[i]));
        assert(t.subrange(s, i + 1).drop_last() == t.subrange(s, i));
        assert(step(lifted, t[i]) == (step(st, t[i]).0 + 1, step(st, t[i]).1));
        lemma_close_scan(t, s, i + 1, end);
    } else {
        let w = t.subrange(s, end);
        assert(w.take(w.len() as int) == w);
        assert forall|j: int| 0 <= j < w.len() && scan0(w.take(j)) == (0int, false) implies #[trigger] w[j]
            != ')' by {
            assert(w.take(j) == t.subrange(s, s + j));
            assert(w[j] == t[s + j]);
        }
    }
}

/// Where the first top-level comma is, and that none comes before it.
proof fn lemma_top_comma_scan(x: Seq<char>, i: int)
    requires
        0 <= i <= x.len(),
        forall|j: int| 0 <= j < i && scan0(x.take(j)) == (0int, false) ==> #[trigger] x[j] != ',',
    ensures
        match top_comma_from(x, i, scan0(x.take(i))) {
            Some(k) => 0 <= k < x.len() && scan0(x.take(k)) == (0int, false) && x[k] == ',' && forall|
                j: int,
            | 0 <= j < k && scan0(x.take(j)) == (0int, false) ==> #[trigger] x[j] != ',',
            None => forall|j: int|
                0 <= j < x.len() && scan0(x.take(j)) == (0int, false) ==> #[trigger] x[j] != ',',
        },
    decreases x.len() - i,
{
    if i < x.len() {
        let st = scan0(x.take(i));
        if !(x[i] == ',' && !st.1 && st.0 == 0) {
            lemma_scan_take_step(x, i);
            lemma_top_comma_scan(x, i + 1);
        }
    }
}

/// The segments of a text clear of top-level `)` are clear of top-level `)` and `,`.
proof fn lemma_segments_safe(x: Seq<char>)
    requires
        safe_for(x, ')'),
    ensures
        forall|i: int|
            0 <= i < segments(x).len() ==> safe_for(#[trigger] segments(x)[i], ')') && safe_for(
                segments(x)[i],
                ',',
            ),
    decreases x.len(),
{
    assert(x.take(0) =~= Seq::<char>::empty());
    lemma_top_comma_scan(x, 0);
    crate::palconfig::lemma_top_comma_range(x, 0, (0, false));
    match top_comma_from(x, 0, (0, false)) {
        Some(k) => {
            let first = x.take(k);
            let rest = x.skip(k + 1);
            assert(first.take(k as int) == first);
            assert forall|j: int| 0 <= j < first.len() && scan0(first.take(j)) == (0int, false) implies #[trigger] first[j]
                != ',' && first[j] != ')' by {
                assert(first.take(j) == x.take(j));
                assert(first[j] == x[j]);
            }
            lemma_scan_take_step(x, k);
            assert(x == x.take(k + 1) + rest);
            lemma_scan_append((0, false), x.take(k + 1), rest);
            assert forall|j: int| 0 <= j < rest.len() && scan0(rest.take(j)) == (0int, false) implies #[trigger] rest[j]
                != ')' by {
                assert(x.take(k + 1 + j) == x.take(k + 1) + rest.take(j));
                lemma_scan_append((0, false), x.take(k + 1), rest.take(j));
                assert(rest[j] == x[k + 1 + j]);
            }
            lemma_segments_safe(rest);
            assert(segments(x) == seq![first] + segments(rest));
            assert forall|i: int| 0 <= i < segments(x).len() implies safe_for(#[trigger] segments(x)[i], ')')
                && safe_for(segments(x)[i], ',') by {
                if i > 0 {
                    assert(segments(x)[i] == segments(rest)[i - 1]);
                }
            }
        },
        None => {
            assert(segments(x) == seq![x]);
        },
    }
}

/// Trimming keeps a text clear of top-level `c`.
#[verifier::spinoff_prover]
proof fn lemma_safe_trim(seg: Seq<char>, c: char)
    requires
        safe_for(seg, c),
    ensures
        safe_for(trim(seg), c),
{
    let (a, b) = lemma_trim_shape(seg);
    let t = trim(seg);
    let pre = seg.take(a);
    let suf = seg.skip(b);
    assert(seg == Seq::<char>::empty() + pre + (t + suf));
    assert(forall|j: int| 0 <= j < pre.len() ==> #[trigger] pre[j] == seg[j]);
    assert(forall|j: int| 0 <= j < suf.len() ==> #[trigger] suf[j] == seg[b + j]);
    lemma_safe_delete(Seq::<char>::empty(), pre, t + suf, c);
    assert(Seq::<char>::empty() + (t + suf) == t + suf + Seq::<char>::empty());
    lemma_safe_delete(t, suf, Seq::<char>::empty(), c);
    assert(t + Seq::<char>::empty() == t);
}

/// A text split at an `=`: the whitespace before the key, the trimmed key, the
/// whitespace after it, then `=` and the rest.
proof fn lemma_key_split(t: Seq<char>, eq: int) -> (r: (Seq<char>, Seq<char>))
    requires
        0 <= eq < t.len(),
        t[eq] == '=',
    ensures
        t == Seq::<char>::empty() + r.0 + (trim(t.take(eq)) + r.1 + (seq!['='] + t.skip(eq + 1))),
        forall|j: int| 0 <= j < r.0.len() ==> is_ws(#[trigger] r.0[j]),
        forall|j: int| 0 <= j < r.1.len() ==> is_ws(#[trigger] r.1[j]),
{
    let k0 = t.take(eq);
    let (c0, d) = lemma_trim_shape(k0);
    let kp = k0.take(c0);
    let ks = k0.skip(d);
    let k = trim(k0);
    let ev = seq!['='] + t.skip(eq + 1);
    assert(k0 =~= kp + k + ks);
    assert(t =~= k0 + ev);
    assert(t =~= Seq::<char>::empty() + kp + (k + ks + ev));
    assert forall|j: int| 0 <= j < kp.len() implies is_ws(#[trigger] kp[j]) by {
        assert(kp[j] == k0[j]);
    }
    assert forall|j: int| 0 <= j < ks.len() implies is_ws(#[trigger] ks[j]) by {
        assert(ks[j] == k0[d + j]);
    }
    (kp, ks)
}

/// The key trimmed out of a trimmed text, `=` and the rest: still clear of top-level `c`.
proof fn lemma_safe_key_trim(t: Seq<char>, eq: int, c: char)
    requires
        safe_for(t, c),
        0 <= eq < t.len(),
        t[eq] == '=',
    ensures
        safe_for(trim(t.take(eq)) + (seq!['='] + t.skip(eq + 1)), c),
{
    let (kp, ks) = lemma_key_split(t, eq);
    let k = trim(t.take(eq));
    let ev = seq!['='] + t.skip(eq + 1);
    lemma_safe_delete(Seq::<char>::empty(), kp, k + ks + ev, c);
    assert(Seq::<char>::empty() + (k + ks + ev) == k + ks + ev);
    lemma_safe_delete(k, ks, ev, c);
}

/// A segment clear of top-level `)` and `,` that reads as a pair gives a pair whose entry
/// reads back.
#[verifier::spinoff_prover]
proof fn lemma_segment_entry(seg: Seq<char>)
    requires
        safe_for(seg, ')'),
        safe_for(seg, ','),
        read_segment(seg) is Pair,
    ensures
        entry_reads_back((read_segment(seg)->Pair_0, read_segment(seg)->Pair_1)),
{
    let (a, b) = lemma_trim_shape(seg);
    let t = trim(seg);
    lemma_safe_trim(seg, ')');
    lemma_safe_trim(seg, ',');
    lemma_find_from(t, seq!['='], 0);
    let eq = find(t, seq!['='])->Some_0;
    assert(t.subrange(eq, eq + 1)[0] == t[eq]);
    lemma_safe_key_trim(t, eq, ')');
    lemma_safe_key_trim(t, eq, ',');
    let k0 = t.take(eq);
    let v = t.skip(eq + 1);
    let (c, d) = lemma_trim_shape(k0);
    let k = trim(k0);
    let ev = seq!['='] + v;
    let e = entry((k, v));
    assert(e == k + ev);
    // the entry is trimmed
    if k.len() > 0 {
        assert(e[0] == k[0]);
        assert(k[0] == k0[c]);
    } else {
        assert(e[0] == '=');
    }
    if v.len() > 0 {
        assert(e.last() == v.last());
        assert(v.last() == t[t.len() - 1]);
        assert(t[t.len() - 1] == seg[b - 1]);
    } else {
        assert(e.last() == '=');
    }
    lemma_trim_trimmed(e);
    // its first `=` ends the key
    assert(match_at(e, seq!['='], k.len() as int)) by {
        assert(e.subrange(k.len() as int, k.len() as int + 1) == seq!['=']);
    }
    assert forall|m: int| 0 <= m < k.len() implies !match_at(e, seq!['='], m) by {
        assert(e[m] == k[m]);
        assert(k[m] == t[c + m]);
        assert(!match_at(t, seq!['='], c + m));
        assert(e.subrange(m, m + 1)[0] == e[m]);
        if e[m] == '=' {
            assert(t.subrange(c + m, c + m + 1) =~= seq!['=']);
        }
    }
    lemma_find_from_is(e, seq!['='], 0, k.len() as int);
    assert(e.take(k.len() as int) == k);
    assert(e.skip(k.len() as int + 1) == v);
    if k.len() > 0 {
        assert(k.last() == k0[d - 1]);
    }
    lemma_trim_trimmed(k);
}

/// Every pair read from segments clear of top-level `)` and `,` has an entry that reads
/// back.
proof fn lemma_read_pairs_entries(segs: Seq<Seq<char>>, ps: Seq<(Seq<char>, Seq<char>)>)
    requires
        read_pairs(segs) == Ok::<_, Seq<char>>(ps),
        forall|i: int| 0 <= i < segs.len() ==> safe_for(#[trigger] segs[i], ')') && safe_for(segs[i], ','),
    ensures
        forall|i: int| 0 <= i < ps.len() ==> entry_reads_back(#[trigger] ps[i]),
    decreases segs.len(),
{
    if segs.len() > 0 {
        let rest = segs.drop_first();
        assert forall|i: int| 0 <= i < rest.len() implies safe_for(#[trigger] rest[i], ')') && safe_for(
            rest[i],
            ',',
        ) by {
            assert(rest[i] == segs[i + 1]);
        }
        match read_segment(segs[0]) {
            Segment::Blank => {
                lemma_read_pairs_entries(rest, ps);
            },
            Segment::Pair(k, v) => {
                let qs = read_pairs(rest)->Ok_0;
                lemma_read_pairs_entries(rest, qs);
                lemma_segment_entry(segs[0]);
                assert(ps == seq![(k, v)] + qs);
                assert forall|i: int| 0 <= i < ps.len() implies entry_reads_back(#[trigger] ps[i]) by {
                    if i > 0 {
                        assert(ps[i] == qs[i - 1]);
                    }
                }
            },
            Segment::Malformed(_) => {},
        }
    }
}

/// A bracketed line that parse takes as the header is trimmed and a single line.
proof fn lemma_header_from_reads(t: Seq<char>, start: int)
    ensures
        header_from(t, start) matches Some(h) ==> h.len() > 0 && h[0] == '[' && trim(h) == h
            && !h.contains('\n'),
    decreases t.len() - start,
{
    if 0 <= start <= t.len() {
        lemma_find_from(t, seq!['\n'], start);
        let end = match find_from(t, seq!['\n'], start) {
            Some(e) => e,
            None => t.len() as int,
        };
        let seg = t.subrange(start, end);
        let (a, b) = lemma_trim_shape(seg);
        let line = trim(seg);
        if line.len() > 0 && line[0] == '[' {
            assert(line[0] == seg[a]);
            assert(line.last() == seg[b - 1]);
            lemma_trim_trimmed(line);
            assert forall|k: int| 0 <= k < line.len() implies line[k] != '\n' by {
                let p = start + a + k;
                assert(line[k] == t[p]);
                assert(!match_at(t, seq!['\n'], p));
                if t[p] == '\n' {
                    assert(t.subrange(p, p + 1) =~= seq!['\n']);
                }
            }
        } else if end < t.len() {
            lemma_header_from_reads(t, end + 1);
        }
    }
}

/// The standard section name is a header that reads back, but for the marker.
proof fn lemma_default_header()
    ensures
        ({
            let h = "[/Script/Pal.PalGameWorldSettings]"@;
            h.len() > 0 && h[0] == '[' && trim(h) == h && !h.contains('\n')
        }),
{
    reveal_strlit("[/Script/Pal.PalGameWorldSettings]");
    let h = "[/Script/Pal.PalGameWorldSettings]"@;
    assert(h[0] == '[');
    assert(h.last() == ']');
    lemma_trim_trimmed(h);
}

/// Round trip from a file: whatever `parse` reads, `serialize` writes out so that `parse`
/// reads the very same configuration back (header, keys, raw values and their order),
/// unless the header itself holds the `OptionSettings=(` marker.
#[verifier::spinoff_prover]
pub proof fn lemma_parse_serialize_parse(t: Seq<char>)
    requires
        parse_spec(t) is Ok,
        serialize_spec(parse_spec(t)->Ok_0) is Ok,
        find(parse_spec(t)->Ok_0.header, option_marker()) is None,
    ensures
        parse_spec(serialize_spec(parse_spec(t)->Ok_0)->Ok_0) == parse_spec(t),
{
    let m = parse_spec(t)->Ok_0;
    lemma_find_from(t, option_marker(), 0);
    let start = find(t, option_marker())->Some_0;
    let open = start + 15;
    let end = close_from(t, open, (0, false))->Some_0;
    assert(t.subrange(start, start + 16)[15] == t[open]);
    assert(t[open] == '(');
    assert(close_from(t, open, (0, false)) == close_from(t, open + 1, (1, false)));
    assert(t.subrange(open + 1, open + 1) =~= Seq::<char>::empty());
    lemma_close_scan(t, open + 1, open + 1, end);
    let inner = t.subrange(open + 1, end);
    lemma_segments_safe(inner);
    lemma_read_pairs_entries(segments(inner), m.pairs);
    lemma_header_from_reads(t, 0);
    lemma_default_header();
    lemma_written_reads_back(m);
}

} // verus!
