//! Character-sequence helpers shared by the config parser and the redaction code.
//!
//! Everything here works on `Seq<char>` / `Vec<char>`. The delimiters the callers look
//! for are all ASCII, and UTF-8 never hides an ASCII byte inside a multi-byte character,
//! so searching characters finds exactly what a byte search would find.
use vstd::prelude::*;

verus! {

broadcast use vstd::string::group_string_axioms;

/// Rust's `char::is_whitespace`: the Unicode `White_Space` property.
pub open spec fn is_ws(c: char) -> bool {
    ||| ('\u{9}' <= c && c <= '\u{d}')
    ||| c == ' '
    ||| c == '\u{85}'
    ||| c == '\u{a0}'
    ||| c == '\u{1680}'
    ||| ('\u{2000}' <= c && c <= '\u{200a}')
    ||| c == '\u{2028}'
    ||| c == '\u{2029}'
    ||| c == '\u{202f}'
    ||| c == '\u{205f}'
    ||| c == '\u{3000}'
}

/// `s` without its leading whitespace.
pub open spec fn trim_start(s: Seq<char>) -> Seq<char>
    decreases s.len(),
{
    if s.len() > 0 && is_ws(s[0]) {
        trim_start(s.drop_first())
    } else {
        s
    }
}

/// `s` without its trailing whitespace.
pub open spec fn trim_end(s: Seq<char>) -> Seq<char>
    decreases s.len(),
{
    if s.len() > 0 && is_ws(s.last()) {
        trim_end(s.drop_last())
    } else {
        s
    }
}

/// `str::trim`: `s` without leading and trailing whitespace.
pub open spec fn trim(s: Seq<char>) -> Seq<char> {
    trim_end(trim_start(s))
}

/// `p` occurs in `s` starting at index `i`.
pub open spec fn match_at(s: Seq<char>, p: Seq<char>, i: int) -> bool {
    0 <= i && i + p.len() <= s.len() && s.subrange(i, i + p.len()) == p
}

/// The first index `j >= i` at which `p` occurs in `s`.
pub open spec fn find_from(s: Seq<char>, p: Seq<char>, i: int) -> Option<int>
    decreases s.len() + 1 - i,
{
    if i < 0 || i + p.len() > s.len() {
        None
    } else if match_at(s, p, i) {
        Some(i)
    } else {
        find_from(s, p, i + 1)
    }
}

/// `str::find`: the first index at which `p` occurs in `s`.
pub open spec fn find(s: Seq<char>, p: Seq<char>) -> Option<int> {
    find_from(s, p, 0)
}

/// What `find_from` returns: the least matching index at or after `i`.
pub proof fn lemma_find_from(s: Seq<char>, p: Seq<char>, i: int)
    requires
        0 <= i,
    ensures
        match find_from(s, p, i) {
            Some(j) => i <= j && match_at(s, p, j) && forall|k: int|
                i <= k < j ==> !match_at(s, p, k),
            None => forall|k: int| i <= k ==> !match_at(s, p, k),
        },
    decreases s.len() + 1 - i,
{
    if i + p.len() > s.len() {
    } else if match_at(s, p, i) {
    } else {
        lemma_find_from(s, p, i + 1);
        assert forall|k: int| i <= k && k < i + 1 implies !match_at(s, p, k) by {
            assert(k == i);
        }
    }
}

/// A `find_from` result is pinned down by the least matching index.
pub proof fn lemma_find_from_is(s: Seq<char>, p: Seq<char>, i: int, j: int)
    requires
        0 <= i <= j,
        match_at(s, p, j),
        forall|k: int| i <= k < j ==> !match_at(s, p, k),
    ensures
        find_from(s, p, i) == Some(j),
    decreases j - i,
{
    if i < j {
        lemma_find_from_is(s, p, i + 1, j);
    }
}

/// A `find_from` that finds nothing.
pub proof fn lemma_find_from_none(s: Seq<char>, p: Seq<char>, i: int)
    requires
        0 <= i,
        forall|k: int| i <= k ==> !match_at(s, p, k),
    ensures
        find_from(s, p, i) is None,
    decreases s.len() + 1 - i,
{
    if i + p.len() <= s.len() {
        lemma_find_from_none(s, p, i + 1);
    }
}

/// `char::is_whitespace`.
pub fn is_ws_char(c: char) -> (r: bool)
    ensures
        r == is_ws(c),
{
    ('\u{9}' <= c && c <= '\u{d}') || c == ' ' || c == '\u{85}' || c == '\u{a0}' || c
        == '\u{1680}' || ('\u{2000}' <= c && c <= '\u{200a}') || c == '\u{2028}' || c
        == '\u{2029}' || c == '\u{202f}' || c == '\u{205f}' || c == '\u{3000}'
}

/// Copies the characters of `s` into a vector.
pub fn chars_of(s: &str) -> (v: Vec<char>)
    ensures
        v@ == s@,
{
    let mut v: Vec<char> = Vec::new();
    for c in it: s.chars()
        invariant
            v@ == it.seq().take(it.index() as int),
            it.seq() == s@,
    {
        v.push(c);
    }
    v
}

/// Builds a `String` from characters: `FromIterator<char> for String`, which the std
/// documentation describes as concatenating the characters in order.
#[verifier::external_body]
pub(crate) fn string_of(cs: &[char]) -> (s: String)
    ensures
        s@ == cs@,
{
    cs.iter().collect()
}

/// Appends the characters of `s` to `out`.
pub fn push_str(out: &mut Vec<char>, s: &str)
    ensures
        final(out)@ == old(out)@ + s@,
{
    let cs = chars_of(s);
    push_all(out, &cs);
}

/// Appends `cs[a..b]` to `out`.
pub fn push_range(out: &mut Vec<char>, cs: &[char], a: usize, b: usize)
    requires
        a <= b <= cs@.len(),
    ensures
        final(out)@ == old(out)@ + cs@.subrange(a as int, b as int),
{
    let mut i = a;
    while i < b
        invariant
            a <= i <= b <= cs@.len(),
            out@ == old(out)@ + cs@.subrange(a as int, i as int),
        decreases b - i,
    {
        out.push(cs[i]);
        assert(cs@.subrange(a as int, i + 1) == cs@.subrange(a as int, i as int).push(cs@[i as int]));
        i += 1;
    }
}

/// Appends all of `cs` to `out`.
pub fn push_all(out: &mut Vec<char>, cs: &[char])
    ensures
        final(out)@ == old(out)@ + cs@,
{
    push_range(out, cs, 0, cs.len());
    assert(cs@.subrange(0, cs@.len() as int) == cs@);
}

/// `cs[a..b]` as a new vector.
pub fn sub_vec(cs: &[char], a: usize, b: usize) -> (v: Vec<char>)
    requires
        a <= b <= cs@.len(),
    ensures
        v@ == cs@.subrange(a as int, b as int),
{
    let mut v: Vec<char> = Vec::new();
    push_range(&mut v, cs, a, b);
    v
}

/// Does `p` occur in `s` at index `i`?
pub fn matches_at(s: &[char], p: &[char], i: usize) -> (r: bool)
    ensures
        r == match_at(s@, p@, i as int),
{
    let slen = s.len();
    if p.len() > slen || i > slen - p.len() {
        return false;
    }
    let mut k: usize = 0;
    while k < p.len()
        invariant
            slen == s@.len(),
            i + p@.len() <= slen,
            k <= p@.len(),
            forall|j: int| 0 <= j < k ==> s@[i + j] == p@[j],
        decreases p.len() - k,
    {
        if s[i + k] != p[k] {
            assert(s@.subrange(i as int, i + p@.len())[k as int] != p@[k as int]);
            return false;
        }
        k += 1;
    }
    assert(s@.subrange(i as int, i + p@.len()) == p@);
    true
}

/// `find_from` on vectors: the first index `>= from` at which `p` occurs in `s`.
pub fn find_chars(s: &[char], p: &[char], from: usize) -> (r: Option<usize>)
    ensures
        match r {
            Some(j) => find_from(s@, p@, from as int) == Some(j as int),
            None => find_from(s@, p@, from as int) is None,
        },
{
    if p.len() > s.len() || from > s.len() - p.len() {
        return None;
    }
    let last = s.len() - p.len();
    let mut i = from;
    while i <= last
        invariant
            from <= i,
            last + p@.len() == s@.len(),
            find_from(s@, p@, from as int) == find_from(s@, p@, i as int),
        decreases last + 1 - i,
    {
        if matches_at(s, p, i) {
            return Some(i);
        }
        if i == last {
            assert(find_from(s@, p@, i + 1) is None);
            return None;
        }
        i += 1;
    }
    None
}

/// `find_from` for a single character.
pub fn find_char(s: &[char], c: char, from: usize) -> (r: Option<usize>)
    ensures
        match r {
            Some(j) => find_from(s@, seq![c], from as int) == Some(j as int),
            None => find_from(s@, seq![c], from as int) is None,
        },
{
    let p = vec![c];
    assert(p@ == seq![c]);
    find_chars(s, p.as_slice(), from)
}

/// The bounds of `trim(cs[a..b])` inside `cs`.
pub fn trim_bounds(cs: &[char], a: usize, b: usize) -> (r: (usize, usize))
    requires
        a <= b <= cs@.len(),
    ensures
        a <= r.0 <= r.1 <= b,
        cs@.subrange(r.0 as int, r.1 as int) == trim(cs@.subrange(a as int, b as int)),
{
    let mut i = a;
    while i < b && is_ws_char(cs[i])
        invariant
            a <= i <= b <= cs@.len(),
            trim_start(cs@.subrange(a as int, b as int)) == trim_start(
                cs@.subrange(i as int, b as int),
            ),
        decreases b - i,
    {
        assert(cs@.subrange(i as int, b as int).drop_first() == cs@.subrange(i + 1, b as int));
        i += 1;
    }
    assert(trim_start(cs@.subrange(i as int, b as int)) == cs@.subrange(i as int, b as int));
    let mut j = b;
    while j > i && is_ws_char(cs[j - 1])
        invariant
            a <= i <= j <= b <= cs@.len(),
            trim_end(cs@.subrange(i as int, b as int)) == trim_end(cs@.subrange(i as int, j as int)),
        decreases j - i,
    {
        assert(cs@.subrange(i as int, j as int).drop_last() == cs@.subrange(i as int, j - 1));
        j -= 1;
    }
    assert(trim_end(cs@.subrange(i as int, j as int)) == cs@.subrange(i as int, j as int));
    (i, j)
}


/// The character of a decimal digit.
pub open spec fn digit_char(d: nat) -> char {
    (d + 48) as char
}

/// The decimal representation of `n`, without leading zeros.
pub open spec fn decimal(n: nat) -> Seq<char>
    decreases n,
{
    if n < 10 {
        seq![digit_char(n)]
    } else {
        decimal(n / 10).push(digit_char(n % 10))
    }
}

/// Appends the decimal representation of `n` (what `{}` prints for an integer).
pub fn push_decimal(out: &mut Vec<char>, n: u64)
    ensures
        final(out)@ == old(out)@ + decimal(n as nat),
    decreases n,
{
    if n >= 10 {
        push_decimal(out, n / 10);
    }
    let d = (n % 10) as u8;
    let c = (48u8 + d) as char;
    assert(c == digit_char((n % 10) as nat));
    out.push(c);
}


/// The texts of a sequence of strings.
pub open spec fn texts(v: Seq<String>) -> Seq<Seq<char>> {
    v.map_values(|s: String| s@)
}

/// Are two character slices equal?
pub fn chars_eq(x: &[char], y: &[char]) -> (r: bool)
    ensures
        r == (x@ == y@),
{
    if x.len() != y.len() {
        return false;
    }
    let mut i: usize = 0;
    while i < x.len()
        invariant
            x@.len() == y@.len(),
            i <= x@.len(),
            forall|j: int| 0 <= j < i ==> x@[j] == y@[j],
        decreases x@.len() - i,
    {
        if x[i] != y[i] {
            return false;
        }
        i += 1;
    }
    assert(x@ == y@);
    true
}

/// `s` starts with `p`.
pub open spec fn starts_with(s: Seq<char>, p: Seq<char>) -> bool {
    p.len() <= s.len() && s.take(p.len() as int) == p
}

/// `s` ends with `p`.
pub open spec fn ends_with(s: Seq<char>, p: Seq<char>) -> bool {
    p.len() <= s.len() && s.skip(s.len() - p.len()) == p
}

/// `str::starts_with` on characters.
pub fn starts_with_chars(s: &[char], p: &[char]) -> (r: bool)
    ensures
        r == starts_with(s@, p@),
{
    let r = matches_at(s, p, 0);
    proof {
        if p@.len() <= s@.len() {
            assert(s@.subrange(0, p@.len() as int) == s@.take(p@.len() as int));
        }
    }
    r
}

/// `str::ends_with` on characters.
pub fn ends_with_chars(s: &[char], p: &[char]) -> (r: bool)
    ensures
        r == ends_with(s@, p@),
{
    if p.len() > s.len() {
        return false;
    }
    let r = matches_at(s, p, s.len() - p.len());
    assert(s@.subrange(s@.len() - p@.len(), s@.len() as int) == s@.skip(s@.len() - p@.len()));
    r
}

/// `str::trim_start_matches`: `s` with every leading copy of `p` removed.
pub open spec fn strip_all(s: Seq<char>, p: Seq<char>) -> Seq<char>
    decreases s.len(),
{
    if p.len() > 0 && starts_with(s, p) {
        strip_all(s.skip(p.len() as int), p)
    } else {
        s
    }
}

/// Start of `strip_all(cs, p)` inside `cs`.
pub fn strip_all_start(cs: &[char], p: &[char]) -> (r: usize)
    ensures
        r <= cs@.len(),
        cs@.skip(r as int) == strip_all(cs@, p@),
{
    let n = cs.len();
    let mut i: usize = 0;
    assert(cs@.skip(0) == cs@);
    if p.len() == 0 {
        return 0;
    }
    while i < n
        invariant
            p@.len() > 0,
            i <= n == cs@.len(),
            strip_all(cs@, p@) == strip_all(cs@.skip(i as int), p@),
        decreases n - i,
    {
        let rest = sub_vec(cs, i, n);
        assert(rest@ == cs@.skip(i as int));
        if !starts_with_chars(&rest, p) {
            return i;
        }
        assert(cs@.skip(i as int).skip(p@.len() as int) == cs@.skip(i + p@.len()));
        i = i + p.len();
    }
    assert(cs@.skip(i as int).len() == 0);
    i
}

/// Index of the last occurrence of `c` in `s`.
pub open spec fn rfind_char(s: Seq<char>, c: char) -> Option<int>
    decreases s.len(),
{
    if s.len() == 0 {
        None
    } else if s.last() == c {
        Some(s.len() - 1)
    } else {
        rfind_char(s.drop_last(), c)
    }
}

pub proof fn lemma_rfind_char(s: Seq<char>, c: char)
    ensures
        rfind_char(s, c) matches Some(i) ==> 0 <= i < s.len() && s[i] == c && forall|k: int|
            i < k < s.len() ==> s[k] != c,
        rfind_char(s, c) is None ==> forall|k: int| 0 <= k < s.len() ==> s[k] != c,
    decreases s.len(),
{
    if s.len() > 0 && s.last() != c {
        let d = s.drop_last();
        lemma_rfind_char(d, c);
        assert forall|k: int| 0 <= k < d.len() implies d[k] == s[k] by {}
        assert(s[s.len() - 1] != c);
    }
}

/// `rfind_char` within `cs[..end]`.
pub fn rfind_char_in(cs: &[char], end: usize, c: char) -> (r: Option<usize>)
    requires
        end <= cs@.len(),
    ensures
        match r {
            Some(i) => rfind_char(cs@.take(end as int), c) == Some(i as int),
            None => rfind_char(cs@.take(end as int), c) is None,
        },
{
    let mut j = end;
    while j > 0
        invariant
            j <= end <= cs@.len(),
            rfind_char(cs@.take(end as int), c) == rfind_char(cs@.take(j as int), c),
        decreases j,
    {
        assert(cs@.take(j as int).drop_last() == cs@.take(j - 1));
        if cs[j - 1] == c {
            return Some(j - 1);
        }
        j -= 1;
    }
    None
}

/// Lowercase mapping `str::to_lowercase`, by name: the Unicode case tables behind it
/// are std's, and nothing here restates them.
pub uninterp spec fn lowercase(s: Seq<char>) -> Seq<char>;

/// `str::to_lowercase` (std): the result is a function of the text alone, named
/// `lowercase`; nothing else is claimed.
#[verifier::external_body]
pub(crate) fn to_lowercase(s: &str) -> (r: String)
    ensures
        r@ == lowercase(s@),
{
    s.to_lowercase()
}

/// `s` contains `p` somewhere.
pub open spec fn contains_seq(s: Seq<char>, p: Seq<char>) -> bool {
    find(s, p) is Some
}

/// `str::contains` on characters.
pub fn contains_chars(s: &[char], p: &[char]) -> (r: bool)
    ensures
        r == contains_seq(s@, p@),
{
    find_chars(s, p, 0).is_some()
}

/// `s` followed by `t`, as a new string.
pub fn concat2(a: &str, b: &str) -> (r: String)
    ensures
        r@ == a@ + b@,
{
    let mut v = chars_of(a);
    push_str(&mut v, b);
    string_of(&v)
}


/// The decimal representation of a signed integer, with `-` for negatives.
pub open spec fn signed_decimal(n: int) -> Seq<char> {
    if n < 0 {
        seq!['-'] + decimal((-n) as nat)
    } else {
        decimal(n as nat)
    }
}

/// Appends the decimal representation of a signed integer.
pub fn push_signed(out: &mut Vec<char>, n: i32)
    ensures
        final(out)@ == old(out)@ + signed_decimal(n as int),
{
    if n < 0 {
        out.push('-');
        let m: u64 = (-(n as i64)) as u64;
        push_decimal(out, m);
        assert(old(out)@.push('-') + decimal(m as nat) == old(out)@ + (seq!['-'] + decimal(m as nat)));
    } else {
        push_decimal(out, n as u64);
    }
}

/// `String::from_utf8_lossy` (std), by name: invalid sequences become U+FFFD by std's
/// rules, which nothing here restates.
pub uninterp spec fn utf8_lossy(bytes: Seq<u8>) -> Seq<char>;

/// `String::from_utf8_lossy` (std). The result is a function of the bytes, named
/// `utf8_lossy`; as std documents, valid UTF-8 is decoded unchanged.
#[verifier::external_body]
pub(crate) fn from_utf8_lossy(bytes: &[u8]) -> (r: String)
    ensures
        r@ == utf8_lossy(bytes@),
        vstd::utf8::valid_utf8(bytes@) ==> r@ == vstd::utf8::decode_utf8(bytes@),
{
    String::from_utf8_lossy(bytes).to_string()
}


/// `str::trim_end_matches(c)`: `s` without its trailing copies of `c`.
pub open spec fn strip_end_char(s: Seq<char>, c: char) -> Seq<char>
    decreases s.len(),
{
    if s.len() > 0 && s.last() == c {
        strip_end_char(s.drop_last(), c)
    } else {
        s
    }
}

/// End of `strip_end_char(cs, c)` inside `cs`.
pub fn strip_end_char_end(cs: &[char], c: char) -> (r: usize)
    ensures
        r <= cs@.len(),
        cs@.take(r as int) == strip_end_char(cs@, c),
{
    let mut j = cs.len();
    assert(cs@.take(j as int) == cs@);
    while j > 0 && cs[j - 1] == c
        invariant
            j <= cs@.len(),
            strip_end_char(cs@, c) == strip_end_char(cs@.take(j as int), c),
        decreases j,
    {
        assert(cs@.take(j as int).drop_last() == cs@.take(j - 1));
        j -= 1;
    }
    j
}

/// The lines of `t` from `start` on, split at `\n`. Unlike `str::lines`, a `\r` before
/// the `\n` stays on its line and a final `\n` leaves an empty last line; every caller
/// trims its lines and skips blank ones, which makes the two agree.
pub open spec fn lines_from(t: Seq<char>, start: int) -> Seq<Seq<char>>
    decreases t.len() - start,
{
    if start < 0 || start > t.len() {
        Seq::empty()
    } else {
        let end = match find_from(t, seq!['\n'], start) {
            Some(e) => e,
            None => t.len() as int,
        };
        if end >= t.len() {
            seq![t.subrange(start, end)]
        } else {
            proof {
                lemma_find_from(t, seq!['\n'], start);
            }
            seq![t.subrange(start, end)] + lines_from(t, end + 1)
        }
    }
}

/// The pieces joined by `sep`.
pub open spec fn join_with(parts: Seq<Seq<char>>, sep: Seq<char>) -> Seq<char>
    decreases parts.len(),
{
    if parts.len() == 0 {
        Seq::empty()
    } else if parts.len() == 1 {
        parts[0]
    } else {
        join_with(parts.drop_last(), sep) + sep + parts.last()
    }
}

/// Bounds of each line of `cs`, in order.
pub fn line_bounds(cs: &[char]) -> (r: Vec<(usize, usize)>)
    ensures
        r@.len() == lines_from(cs@, 0).len(),
        forall|i: int|
            0 <= i < r@.len() ==> (#[trigger] r@[i]).0 <= r@[i].1 <= cs@.len() && cs@.subrange(
                r@[i].0 as int,
                r@[i].1 as int,
            ) == lines_from(cs@, 0)[i],
{
    let n = cs.len();
    let mut out: Vec<(usize, usize)> = Vec::new();
    let mut start: usize = 0;
    let ghost mut done: Seq<Seq<char>> = Seq::empty();
    loop
        invariant
            n == cs@.len(),
            start <= n,
            lines_from(cs@, 0) == done + lines_from(cs@, start as int),
            out@.len() == done.len(),
            forall|i: int|
                0 <= i < out@.len() ==> (#[trigger] out@[i]).0 <= out@[i].1 <= n && cs@.subrange(
                    out@[i].0 as int,
                    out@[i].1 as int,
                ) == done[i],
        decreases n - start,
    {
        let end = match find_char(cs, '\n', start) {
            Some(e) => e,
            None => n,
        };
        proof {
            lemma_find_from(cs@, seq!['\n'], start as int);
        }
        let ghost line = cs@.subrange(start as int, end as int);
        out.push((start, end));
        proof {
            let nd = done.push(line);
            if end < n {
                assert(lines_from(cs@, start as int) == seq![line] + lines_from(cs@, end + 1));
                assert(done + (seq![line] + lines_from(cs@, end + 1)) == nd + lines_from(
                    cs@,
                    end + 1,
                ));
            } else {
                assert(lines_from(cs@, start as int) == seq![line]);
                assert(done + seq![line] == nd);
            }
            done = nd;
        }
        if end >= n {
            return out;
        }
        start = end + 1;
    }
}

} // verus!
