//! Round-trip parser for `PalWorldSettings.ini`.
//!
//! The file is two lines: a section header and one long
//!   `OptionSettings=(Key=Value,Key=Value,...)`
//! line. A single malformed token makes the server silently revert EVERY setting to
//! default, so this parser preserves unknown keys verbatim, only touches the values it
//! is told to, and validates the result before it can be written back.
use vstd::prelude::*;
use crate::text::{
    chars_of, find, find_char, find_chars, find_from, lemma_find_from, match_at, push_all, push_str,
    string_of, sub_vec, trim, trim_bounds,
};

verus! {

/// A parsed settings file.
#[derive(Debug, Clone)]
pub struct PalConfig {
    pub header: String,
    /// (key, raw_value) in file order. raw_value keeps quotes for strings, e.g. `"My Server"`.
    pub pairs: Vec<(String, String)>,
}

/// The mathematical content of a [`PalConfig`].
pub struct PalConfigModel {
    pub header: Seq<char>,
    pub pairs: Seq<(Seq<char>, Seq<char>)>,
}

/// The (key, value) pairs of a vector of string pairs, as character sequences.
pub open spec fn pairs_model(v: Seq<(String, String)>) -> Seq<(Seq<char>, Seq<char>)> {
    Seq::new(v.len(), |i: int| (v[i].0@, v[i].1@))
}

impl View for PalConfig {
    type V = PalConfigModel;

    open spec fn view(&self) -> PalConfigModel {
        PalConfigModel { header: self.header@, pairs: pairs_model(self.pairs@) }
    }
}

// ---------------------------------------------------------------- the scanner

/// Scanner state: parenthesis depth and whether we are inside a quoted string.
pub open spec fn step(st: (int, bool), c: char) -> (int, bool) {
    if c == '"' {
        (st.0, !st.1)
    } else if c == '(' && !st.1 {
        (st.0 + 1, st.1)
    } else if c == ')' && !st.1 {
        (st.0 - 1, st.1)
    } else {
        st
    }
}

/// The scanner state after reading all of `s`, starting in `st`.
pub open spec fn scan(st: (int, bool), s: Seq<char>) -> (int, bool)
    decreases s.len(),
{
    if s.len() == 0 {
        st
    } else {
        step(scan(st, s.drop_last()), s.last())
    }
}

/// Index of the `)` that closes the parenthesis opened before index `i`, reading from
/// `i` in state `st`: the first unquoted `)` read at depth 1.
pub open spec fn close_from(t: Seq<char>, i: int, st: (int, bool)) -> Option<int>
    decreases t.len() - i,
{
    if i < 0 || i >= t.len() {
        None
    } else if t[i] == ')' && !st.1 && st.0 == 1 {
        Some(i)
    } else {
        close_from(t, i + 1, step(st, t[i]))
    }
}

/// Index of the first comma at or after `i` that is outside quotes and parentheses.
pub open spec fn top_comma_from(s: Seq<char>, i: int, st: (int, bool)) -> Option<int>
    decreases s.len() - i,
{
    if i < 0 || i >= s.len() {
        None
    } else if s[i] == ',' && !st.1 && st.0 == 0 {
        Some(i)
    } else {
        top_comma_from(s, i + 1, step(st, s[i]))
    }
}

pub proof fn lemma_top_comma_range(s: Seq<char>, i: int, st: (int, bool))
    ensures
        top_comma_from(s, i, st) matches Some(k) ==> 0 <= i <= k < s.len() && s[k] == ',',
    decreases s.len() - i,
{
    if 0 <= i < s.len() && !(s[i] == ',' && !st.1 && st.0 == 0) {
        lemma_top_comma_range(s, i + 1, step(st, s[i]));
    }
}

pub proof fn lemma_close_range(t: Seq<char>, i: int, st: (int, bool))
    ensures
        close_from(t, i, st) matches Some(k) ==> 0 <= i <= k < t.len() && t[k] == ')',
    decreases t.len() - i,
{
    if 0 <= i < t.len() && !(t[i] == ')' && !st.1 && st.0 == 1) {
        lemma_close_range(t, i + 1, step(st, t[i]));
    }
}

/// The segments of `s` between its top-level commas.
pub open spec fn segments(s: Seq<char>) -> Seq<Seq<char>>
    decreases s.len(),
{
    match top_comma_from(s, 0, (0, false)) {
        Some(k) => {
            proof {
                lemma_top_comma_range(s, 0, (0, false));
            }
            seq![s.take(k)] + segments(s.skip(k + 1))
        },
        None => seq![s],
    }
}

/// What one segment contributes.
pub enum Segment {
    /// A blank segment, ignored.
    Blank,
    /// `key=value`.
    Pair(Seq<char>, Seq<char>),
    /// A non-blank segment without `=`; carries the trimmed segment.
    Malformed(Seq<char>),
}

/// How a segment reads: trimmed; split at its first `=`; the key trimmed again and the
/// value kept verbatim.
pub open spec fn read_segment(seg: Seq<char>) -> Segment {
    let t = trim(seg);
    if t.len() == 0 {
        Segment::Blank
    } else {
        match find(t, seq!['=']) {
            Some(eq) => Segment::Pair(trim(t.take(eq)), t.skip(eq + 1)),
            None => Segment::Malformed(t),
        }
    }
}

/// The pairs of a list of segments, or the first malformed segment.
pub open spec fn read_pairs(segs: Seq<Seq<char>>) -> Result<Seq<(Seq<char>, Seq<char>)>, Seq<char>>
    decreases segs.len(),
{
    if segs.len() == 0 {
        Ok(Seq::empty())
    } else {
        match read_segment(segs[0]) {
            Segment::Blank => read_pairs(segs.drop_first()),
            Segment::Pair(k, v) => prepend(seq![(k, v)], read_pairs(segs.drop_first())),
            Segment::Malformed(t) => Err(t),
        }
    }
}

/// `xs` put in front of a successful result; errors pass through.
pub open spec fn prepend<E>(
    xs: Seq<(Seq<char>, Seq<char>)>,
    r: Result<Seq<(Seq<char>, Seq<char>)>, E>,
) -> Result<Seq<(Seq<char>, Seq<char>)>, E> {
    match r {
        Ok(ys) => Ok(xs + ys),
        Err(e) => Err(e),
    }
}

// ---------------------------------------------------------------- parse

/// The text that opens the settings line.
pub open spec fn option_marker() -> Seq<char> {
    seq!['O', 'p', 't', 'i', 'o', 'n', 'S', 'e', 't', 't', 'i', 'n', 'g', 's', '=', '(']
}

/// The first line (split at `\n`) at or after `start` whose trimmed form starts with `[`,
/// trimmed.
pub open spec fn header_from(t: Seq<char>, start: int) -> Option<Seq<char>>
    decreases t.len() - start,
{
    if start < 0 || start > t.len() {
        None
    } else {
        let end = match find_from(t, seq!['\n'], start) {
            Some(e) => e,
            None => t.len() as int,
        };
        let line = trim(t.subrange(start, end));
        if line.len() > 0 && line[0] == '[' {
            Some(line)
        } else if end >= t.len() {
            None
        } else {
            proof {
                lemma_find_from(t, seq!['\n'], start);
            }
            header_from(t, end + 1)
        }
    }
}

/// The header a parse reports: the first bracketed line, or the standard section name.
pub open spec fn header_of(t: Seq<char>) -> Seq<char> {
    match header_from(t, 0) {
        Some(h) => h,
        None => "[/Script/Pal.PalGameWorldSettings]"@,
    }
}

pub open spec fn err_no_options() -> Seq<char> {
    "No OptionSettings=(...) found in PalWorldSettings.ini"@
}

pub open spec fn err_unbalanced() -> Seq<char> {
    "OptionSettings parentheses are not balanced"@
}

pub open spec fn err_malformed(seg: Seq<char>) -> Seq<char> {
    "Malformed setting (no '='): "@ + seg
}

pub open spec fn err_no_keys() -> Seq<char> {
    "OptionSettings had no keys"@
}

/// What `parse` returns for the text `t`.
pub open spec fn parse_spec(t: Seq<char>) -> Result<PalConfigModel, Seq<char>> {
    match find(t, option_marker()) {
        None => Err(err_no_options()),
        Some(start) => {
            let open = start + 15;
            match close_from(t, open, (0, false)) {
                None => Err(err_unbalanced()),
                Some(end) => match read_pairs(segments(t.subrange(open + 1, end))) {
                    Err(seg) => Err(err_malformed(seg)),
                    Ok(ps) => if ps.len() == 0 {
                        Err(err_no_keys())
                    } else {
                        Ok(PalConfigModel { header: header_of(t), pairs: ps })
                    },
                },
            }
        },
    }
}

/// Bounds of the header line inside `cs`, if one starts with `[`.
fn header_bounds(cs: &[char]) -> (r: Option<(usize, usize)>)
    ensures
        match r {
            Some((a, b)) => a <= b <= cs@.len() && header_from(cs@, 0) == Some(
                cs@.subrange(a as int, b as int),
            ),
            None => header_from(cs@, 0) is None,
        },
{
    let n = cs.len();
    let mut start: usize = 0;
    while start <= n
        invariant
            n == cs@.len(),
            header_from(cs@, 0) == header_from(cs@, start as int),
        decreases n + 1 - start,
    {
        let end = match find_char(cs, '\n', start) {
            Some(e) => e,
            None => n,
        };
        proof {
            lemma_find_from(cs@, seq!['\n'], start as int);
        }
        let (a, b) = trim_bounds(cs, start, end);
        if a < b && cs[a] == '[' {
            return Some((a, b));
        }
        if end >= n {
            return None;
        }
        start = end + 1;
    }
    None
}

/// Index of the closing parenthesis for the one at `open`.
fn close_index(cs: &[char], open: usize) -> (r: Option<usize>)
    requires
        open <= cs@.len(),
    ensures
        match r {
            Some(e) => close_from(cs@, open as int, (0, false)) == Some(e as int),
            None => close_from(cs@, open as int, (0, false)) is None,
        },
{
    let n = cs.len();
    let mut depth: i128 = 0;
    let mut in_q = false;
    let mut i = open;
    while i < n
        invariant
            open <= i <= n == cs@.len(),
            -(i as int) <= depth <= i as int,
            close_from(cs@, open as int, (0, false)) == close_from(
                cs@,
                i as int,
                (depth as int, in_q),
            ),
        decreases n - i,
    {
        let c = cs[i];
        if c == '"' {
            in_q = !in_q;
        } else if c == '(' && !in_q {
            depth += 1;
        } else if c == ')' && !in_q {
            if depth == 1 {
                return Some(i);
            }
            depth -= 1;
        }
        i += 1;
    }
    None
}

/// Parses one segment `cs[a..b]`, appending its pair if it has one.
fn push_pair(cs: &[char], a: usize, b: usize, pairs: &mut Vec<(String, String)>) -> (r: Result<
    (),
    String,
>)
    requires
        a <= b <= cs@.len(),
    ensures
        match read_segment(cs@.subrange(a as int, b as int)) {
            Segment::Blank => r is Ok && final(pairs)@ == old(pairs)@,
            Segment::Pair(k, v) => r is Ok && pairs_model(final(pairs)@) == pairs_model(
                old(pairs)@,
            ).push((k, v)),
            Segment::Malformed(t) => r matches Err(e) && e@ == err_malformed(t),
        },
{
    let (x, y) = trim_bounds(cs, a, b);
    if x == y {
        return Ok(());
    }
    let t = sub_vec(cs, x, y);
    match find_char(&t, '=', 0) {
        None => {
            let mut m = chars_of("Malformed setting (no '='): ");
            push_all(&mut m, &t);
            Err(string_of(&m))
        },
        Some(eq) => {
            proof {
                lemma_find_from(t@, seq!['='], 0);
            }
            let (kx, ky) = trim_bounds(&t, 0, eq);
            let key = string_of(&sub_vec(&t, kx, ky));
            let value = string_of(&sub_vec(&t, eq + 1, t.len()));
            assert(t@.take(eq as int) == t@.subrange(0, eq as int));
            assert(t@.skip(eq + 1) == t@.subrange(eq + 1, t@.len() as int));
            let ghost before = pairs@;
            pairs.push((key, value));
            assert(pairs_model(pairs@) == pairs_model(before).push((key@, value@)));
            Ok(())
        },
    }
}

/// Splits the inside of `OptionSettings=(...)` into pairs.
fn split_pairs(inner: &[char]) -> (r: Result<Vec<(String, String)>, String>)
    ensures
        match read_pairs(segments(inner@)) {
            Ok(ps) => r matches Ok(v) && pairs_model(v@) == ps,
            Err(t) => r matches Err(e) && e@ == err_malformed(t),
        },
{
    let n = inner.len();
    let mut pairs: Vec<(String, String)> = Vec::new();
    let mut depth: i128 = 0;
    let mut in_q = false;
    let mut tok: usize = 0;
    let mut i: usize = 0;
    assert(inner@.skip(0) == inner@);
    assert(pairs_model(pairs@) == Seq::<(Seq<char>, Seq<char>)>::empty());
    while i < n
        invariant
            tok <= i <= n == inner@.len(),
            -(i as int) <= depth <= i as int,
            read_pairs(segments(inner@)) == prepend(
                pairs_model(pairs@),
                read_pairs(segments(inner@.skip(tok as int))),
            ),
            top_comma_from(inner@.skip(tok as int), 0, (0, false)) == top_comma_from(
                inner@.skip(tok as int),
                i - tok,
                (depth as int, in_q),
            ),
        decreases n - i,
    {
        let c = inner[i];
        let ghost s = inner@.skip(tok as int);
        assert(s[i - tok] == c);
        if c == '"' {
            in_q = !in_q;
        } else if c == '(' && !in_q {
            depth += 1;
        } else if c == ')' && !in_q {
            depth -= 1;
        } else if c == ',' && !in_q && depth == 0 {
            let ghost done = pairs_model(pairs@);
            proof {
                assert(s.take(i - tok) == inner@.subrange(tok as int, i as int));
                assert(s.skip(i - tok + 1) == inner@.skip(i + 1));
                assert(segments(s) == seq![s.take(i - tok)] + segments(s.skip(i - tok + 1)));
                let segs = segments(s);
                assert(segs[0] == s.take(i - tok));
                assert(segs.drop_first() == segments(inner@.skip(i + 1)));
            }
            match push_pair(inner, tok, i, &mut pairs) {
                Ok(()) => {},
                Err(e) => {
                    return Err(e);
                },
            }
            proof {
                let rest = read_pairs(segments(inner@.skip(i + 1)));
                assert(read_pairs(segments(inner@)) == prepend(done, read_pairs(segments(s))));
                match read_segment(inner@.subrange(tok as int, i as int)) {
                    Segment::Pair(k, v) => {
                        assert(read_pairs(segments(s)) == prepend(seq![(k, v)], rest));
                        match rest {
                            Ok(ys) => {
                                assert(done + (seq![(k, v)] + ys) == done.push((k, v)) + ys);
                            },
                            Err(_) => {},
                        }
                    },
                    _ => {},
                }
            }
            tok = i + 1;
            assert(inner@.skip(tok as int) == inner@.skip(i + 1));
        }
        i += 1;
    }
    let ghost s = inner@.skip(tok as int);
    proof {
        assert(s == inner@.subrange(tok as int, n as int));
        assert(top_comma_from(s, i - tok, (depth as int, in_q)) is None);
        assert(segments(s) == seq![s]);
        assert(seq![s].drop_first() == Seq::<Seq<char>>::empty());
    }
    let ghost done = pairs_model(pairs@);
    match push_pair(inner, tok, n, &mut pairs) {
        Ok(()) => {},
        Err(e) => {
            return Err(e);
        },
    }
    proof {
        let empty = Seq::<(Seq<char>, Seq<char>)>::empty();
        assert(seq![s][0] == s);
        assert(read_pairs(seq![s].drop_first()) == Ok::<_, Seq<char>>(empty));
        match read_segment(s) {
            Segment::Pair(k, v) => {
                assert(read_pairs(seq![s]) == Ok::<_, Seq<char>>(seq![(k, v)] + empty));
                assert(done + (seq![(k, v)] + empty) == done.push((k, v)));
            },
            Segment::Blank => {
                assert(read_pairs(seq![s]) == Ok::<_, Seq<char>>(empty));
                assert(done + empty == done);
            },
            _ => {},
        }
    }
    Ok(pairs)
}

/// Parses the text of a `PalWorldSettings.ini`.
pub fn parse(text: &str) -> (r: Result<PalConfig, String>)
    ensures
        match parse_spec(text@) {
            Ok(m) => r matches Ok(c) && c@ == m,
            Err(e) => r matches Err(x) && x@ == e,
        },
{
    let cs = chars_of(text);
    let n = cs.len();
    let header = match header_bounds(&cs) {
        Some((a, b)) => string_of(&sub_vec(&cs, a, b)),
        None => String::from_str("[/Script/Pal.PalGameWorldSettings]"),
    };
    let marker = vec!['O', 'p', 't', 'i', 'o', 'n', 'S', 'e', 't', 't', 'i', 'n', 'g', 's', '=', '('];
    assert(marker@ == option_marker());
    let start = match find_chars(&cs, &marker, 0) {
        Some(s) => s,
        None => {
            return Err(String::from_str("No OptionSettings=(...) found in PalWorldSettings.ini"));
        },
    };
    proof {
        lemma_find_from(cs@, option_marker(), 0);
        assert(option_marker().len() == 16);
        assert(match_at(cs@, option_marker(), start as int));
    }
    let open = start + 15;
    let end = match close_index(&cs, open) {
        Some(e) => e,
        None => {
            return Err(String::from_str("OptionSettings parentheses are not balanced"));
        },
    };
    proof {
        lemma_close_range(cs@, open as int, (0, false));
    }
    let inner = sub_vec(&cs, open + 1, end);
    let pairs = split_pairs(&inner)?;
    if pairs.len() == 0 {
        return Err(String::from_str("OptionSettings had no keys"));
    }
    Ok(PalConfig { header, pairs })
}


// ---------------------------------------------------------------- updates

/// Index of the first pair at or after `i` whose key is `k`.
pub open spec fn key_index_from(ps: Seq<(Seq<char>, Seq<char>)>, k: Seq<char>, i: int) -> Option<
    int,
>
    decreases ps.len() - i,
{
    if i < 0 || i >= ps.len() {
        None
    } else if ps[i].0 == k {
        Some(i)
    } else {
        key_index_from(ps, k, i + 1)
    }
}

/// Index of the first pair whose key is `k`.
pub open spec fn key_index(ps: Seq<(Seq<char>, Seq<char>)>, k: Seq<char>) -> Option<int> {
    key_index_from(ps, k, 0)
}

pub proof fn lemma_key_index_from(ps: Seq<(Seq<char>, Seq<char>)>, k: Seq<char>, i: int)
    requires
        0 <= i,
    ensures
        match key_index_from(ps, k, i) {
            Some(j) => i <= j < ps.len() && ps[j].0 == k && forall|m: int|
                i <= m < j ==> ps[m].0 != k,
            None => forall|m: int| i <= m < ps.len() ==> ps[m].0 != k,
        },
    decreases ps.len() - i,
{
    if i < ps.len() && ps[i].0 != k {
        lemma_key_index_from(ps, k, i + 1);
    }
}

/// One update: overwrite the value of the first pair with that key, or append the pair.
pub open spec fn apply_one(ps: Seq<(Seq<char>, Seq<char>)>, u: (Seq<char>, Seq<char>)) -> Seq<
    (Seq<char>, Seq<char>),
> {
    match key_index(ps, u.0) {
        Some(i) => ps.update(i, (ps[i].0, u.1)),
        None => ps.push(u),
    }
}

/// All updates, in order.
pub open spec fn apply_all(ps: Seq<(Seq<char>, Seq<char>)>, ups: Seq<(Seq<char>, Seq<char>)>) -> Seq<
    (Seq<char>, Seq<char>),
>
    decreases ups.len(),
{
    if ups.len() == 0 {
        ps
    } else {
        apply_one(apply_all(ps, ups.drop_last()), ups.last())
    }
}

/// Index of the first pair with key `k`.
fn find_key(pairs: &Vec<(String, String)>, k: &String) -> (r: Option<usize>)
    ensures
        match r {
            Some(j) => key_index(pairs_model(pairs@), k@) == Some(j as int),
            None => key_index(pairs_model(pairs@), k@) is None,
        },
{
    let n = pairs.len();
    let mut j: usize = 0;
    while j < n
        invariant
            n == pairs@.len(),
            j <= n,
            key_index(pairs_model(pairs@), k@) == key_index_from(pairs_model(pairs@), k@, j as int),
        decreases n - j,
    {
        if pairs[j].0 == *k {
            return Some(j);
        }
        j += 1;
    }
    None
}

/// Set values for the given keys (append if not present); leave everything else untouched.
pub fn apply_updates(cfg: &mut PalConfig, updates: &[(String, String)])
    ensures
        final(cfg)@.header == old(cfg)@.header,
        final(cfg)@.pairs == apply_all(old(cfg)@.pairs, pairs_model(updates@)),
{
    let nu = updates.len();
    let mut u: usize = 0;
    while u < nu
        invariant
            nu == updates@.len(),
            u <= nu,
            cfg@.header == old(cfg)@.header,
            cfg@.pairs == apply_all(old(cfg)@.pairs, pairs_model(updates@).take(u as int)),
        decreases nu - u,
    {
        let k = &updates[u].0;
        let v = &updates[u].1;
        let ghost before = cfg@.pairs;
        let found = find_key(&cfg.pairs, k);
        proof {
            lemma_key_index_from(before, k@, 0);
        }
        if let Some(j) = found {
            let key = cfg.pairs[j].0.clone();
            cfg.pairs.set(j, (key, v.clone()));
            assert(pairs_model(cfg.pairs@) == before.update(j as int, (before[j as int].0, v@)));
        } else {
            cfg.pairs.push((k.clone(), v.clone()));
            assert(pairs_model(cfg.pairs@) == before.push((k@, v@)));
        }
        proof {
            let ups = pairs_model(updates@);
            assert(ups.take(u + 1).drop_last() == ups.take(u as int));
            assert(ups.take(u + 1).last() == (k@, v@));
        }
        u += 1;
    }
    assert(pairs_model(updates@).take(nu as int) == pairs_model(updates@));
}


// ---------------------------------------------------------------- serialize

/// `key=value`.
pub open spec fn entry(p: (Seq<char>, Seq<char>)) -> Seq<char> {
    p.0 + seq!['='] + p.1
}

/// The entries joined by commas.
pub open spec fn join_pairs(ps: Seq<(Seq<char>, Seq<char>)>) -> Seq<char>
    decreases ps.len(),
{
    if ps.len() == 0 {
        Seq::empty()
    } else if ps.len() == 1 {
        entry(ps[0])
    } else {
        join_pairs(ps.drop_last()) + seq![','] + entry(ps.last())
    }
}

pub open spec fn paren_delta(c: char) -> int {
    if c == '(' {
        1
    } else if c == ')' {
        -1
    } else {
        0
    }
}

/// Opening minus closing parentheses in `s`, quoted or not.
pub open spec fn net_depth(s: Seq<char>) -> int
    decreases s.len(),
{
    if s.len() == 0 {
        0
    } else {
        net_depth(s.drop_last()) + paren_delta(s.last())
    }
}

/// Number of `"` in `s`.
pub open spec fn quote_count(s: Seq<char>) -> nat
    decreases s.len(),
{
    if s.len() == 0 {
        0
    } else {
        quote_count(s.drop_last()) + if s.last() == '"' {
            1nat
        } else {
            0nat
        }
    }
}

/// Some prefix of `s` closes more parentheses than it opens.
pub open spec fn dips_below_zero(s: Seq<char>) -> bool {
    exists|i: int| 0 < i <= s.len() && net_depth(#[trigger] s.take(i)) < 0
}

pub open spec fn err_empty() -> Seq<char> {
    "Refusing to write an empty OptionSettings line"@
}

pub open spec fn err_line_break() -> Seq<char> {
    "A value contains a line break — refusing to write (would corrupt the file)"@
}

pub open spec fn err_close() -> Seq<char> {
    "Unbalanced ')' in settings — refusing to write"@
}

pub open spec fn err_open() -> Seq<char> {
    "Unbalanced '(' in settings — refusing to write"@
}

pub open spec fn err_quotes() -> Seq<char> {
    "Odd number of quotes in settings — refusing to write"@
}

/// What `serialize` returns: the two-line file, or why it refuses to write one.
pub open spec fn serialize_spec(m: PalConfigModel) -> Result<Seq<char>, Seq<char>> {
    let inner = join_pairs(m.pairs);
    if m.pairs.len() == 0 {
        Err(err_empty())
    } else if inner.contains('\n') || inner.contains('\r') {
        Err(err_line_break())
    } else if dips_below_zero(inner) {
        Err(err_close())
    } else if net_depth(inner) != 0 {
        Err(err_open())
    } else if quote_count(inner) % 2 != 0 {
        Err(err_quotes())
    } else {
        Ok(m.header + seq!['\n'] + option_marker() + inner + seq![')', '\n'])
    }
}

/// The comma-joined `key=value` list of `pairs`.
fn join_entries(pairs: &Vec<(String, String)>) -> (inner: Vec<char>)
    ensures
        inner@ == join_pairs(pairs_model(pairs@)),
{
    let n = pairs.len();
    let ghost ps = pairs_model(pairs@);
    let mut inner: Vec<char> = Vec::new();
    let mut i: usize = 0;
    assert(ps.take(0) == Seq::<(Seq<char>, Seq<char>)>::empty());
    while i < n
        invariant
            n == pairs@.len() == ps.len(),
            ps == pairs_model(pairs@),
            i <= n,
            inner@ == join_pairs(ps.take(i as int)),
        decreases n - i,
    {
        let ghost prev = inner@;
        if i > 0 {
            inner.push(',');
        }
        push_str(&mut inner, pairs[i].0.as_str());
        inner.push('=');
        push_str(&mut inner, pairs[i].1.as_str());
        proof {
            let t = ps.take(i + 1);
            assert(t.drop_last() == ps.take(i as int));
            assert(t.last() == ps[i as int]);
            if i == 0 {
                assert(t.len() == 1);
                assert(inner@ == entry(t[0]));
            } else {
                assert(inner@ == prev + seq![','] + entry(ps[i as int]));
            }
        }
        i += 1;
    }
    assert(ps.take(n as int) == ps);
    inner
}

/// Serialize back to the strict two-line form, validating we can't produce a file that
/// would nuke the server's settings.
pub fn serialize(cfg: &PalConfig) -> (r: Result<String, String>)
    ensures
        match serialize_spec(cfg@) {
            Ok(t) => r matches Ok(s) && s@ == t,
            Err(e) => r matches Err(x) && x@ == e,
        },
{
    if cfg.pairs.len() == 0 {
        return Err(String::from_str("Refusing to write an empty OptionSettings line"));
    }
    let inner = join_entries(&cfg.pairs);
    let n = inner.len();
    let mut i: usize = 0;
    while i < n
        invariant
            n == inner@.len(),
            inner@ == join_pairs(cfg@.pairs),
            cfg@.pairs.len() > 0,
            i <= n,
            forall|j: int| 0 <= j < i ==> inner@[j] != '\n' && inner@[j] != '\r',
        decreases n - i,
    {
        if inner[i] == '\n' || inner[i] == '\r' {
            if inner[i] == '\n' {
                assert(inner@.contains('\n'));
            } else {
                assert(inner@.contains('\r'));
            }
            return Err(
                String::from_str(
                    "A value contains a line break — refusing to write (would corrupt the file)",
                ),
            );
        }
        i += 1;
    }
    assert(!inner@.contains('\n') && !inner@.contains('\r'));
    let mut depth: i128 = 0;
    let mut quotes: usize = 0;
    let mut i: usize = 0;
    assert(inner@.take(0) == Seq::<char>::empty());
    while i < n
        invariant
            n == inner@.len(),
            inner@ == join_pairs(cfg@.pairs),
            cfg@.pairs.len() > 0,
            !inner@.contains('\n') && !inner@.contains('\r'),
            i <= n,
            depth == net_depth(inner@.take(i as int)),
            -(i as int) <= depth <= i as int,
            quotes == quote_count(inner@.take(i as int)),
            quotes <= i,
            forall|j: int| 0 < j <= i ==> net_depth(#[trigger] inner@.take(j)) >= 0,
        decreases n - i,
    {
        let c = inner[i];
        assert(inner@.take(i + 1).drop_last() == inner@.take(i as int));
        if c == '"' {
            quotes += 1;
        } else if c == '(' {
            depth += 1;
        } else if c == ')' {
            depth -= 1;
        }
        if depth < 0 {
            assert(net_depth(inner@.take(i + 1)) < 0);
            assert(dips_below_zero(inner@));
            return Err(String::from_str("Unbalanced ')' in settings — refusing to write"));
        }
        i += 1;
    }
    assert(inner@.take(n as int) == inner@);
    if depth != 0 {
        return Err(String::from_str("Unbalanced '(' in settings — refusing to write"));
    }
    if quotes % 2 != 0 {
        return Err(String::from_str("Odd number of quotes in settings — refusing to write"));
    }
    let mut out = chars_of(cfg.header.as_str());
    out.push('\n');
    let marker = vec!['O', 'p', 't', 'i', 'o', 'n', 'S', 'e', 't', 't', 'i', 'n', 'g', 's', '=', '('];
    push_all(&mut out, &marker);
    push_all(&mut out, &inner);
    out.push(')');
    out.push('\n');
    Ok(string_of(&out))
}

} // verus!
