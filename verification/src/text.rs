//! Character-level text primitives shared by the chunkers, the command
//! parsers and the record builders: whitespace trimming, line splitting,
//! substring search and decimal formatting, each with a mathematical model
//! over `Seq<char>`.
use vstd::prelude::*;

verus! {

/// The Unicode `White_Space` property, as used by `char::is_whitespace`.
pub open spec fn is_ws(c: char) -> bool {
    ||| ('\u{9}' <= c && c <= '\u{D}')
    ||| c == ' '
    ||| c == '\u{85}'
    ||| c == '\u{A0}'
    ||| c == '\u{1680}'
    ||| ('\u{2000}' <= c && c <= '\u{200A}')
    ||| c == '\u{2028}'
    ||| c == '\u{2029}'
    ||| c == '\u{202F}'
    ||| c == '\u{205F}'
    ||| c == '\u{3000}'
}

pub fn is_whitespace(c: char) -> (r: bool)
    ensures
        r == is_ws(c),
{
    ('\u{9}' <= c && c <= '\u{D}') || c == ' ' || c == '\u{85}' || c == '\u{A0}' || c
        == '\u{1680}' || ('\u{2000}' <= c && c <= '\u{200A}') || c == '\u{2028}' || c
        == '\u{2029}' || c == '\u{202F}' || c == '\u{205F}' || c == '\u{3000}'
}

/// Index of the first non-whitespace character at or after `i` (or `s.len()`).
pub open spec fn skip_ws_from(s: Seq<char>, i: int) -> int
    decreases s.len() - i,
{
    if 0 <= i < s.len() && is_ws(s[i]) {
        skip_ws_from(s, i + 1)
    } else {
        i
    }
}

/// End of `s.take(j)` once trailing whitespace is removed.
pub open spec fn trim_end_at(s: Seq<char>, j: int) -> int
    decreases j,
{
    if 0 < j <= s.len() && is_ws(s[j - 1]) {
        trim_end_at(s, j - 1)
    } else {
        j
    }
}

pub open spec fn trim_start(s: Seq<char>) -> Seq<char> {
    s.skip(skip_ws_from(s, 0))
}

pub open spec fn trim_end(s: Seq<char>) -> Seq<char> {
    s.take(trim_end_at(s, s.len() as int))
}

/// `str::trim`: both leading and trailing whitespace removed.
pub open spec fn trim(s: Seq<char>) -> Seq<char> {
    trim_end(trim_start(s))
}

pub proof fn lemma_skip_ws_bounds(s: Seq<char>, i: int)
    requires
        0 <= i <= s.len(),
    ensures
        i <= skip_ws_from(s, i) <= s.len(),
        forall|k: int| i <= k < skip_ws_from(s, i) ==> is_ws(#[trigger] s[k]),
        skip_ws_from(s, i) < s.len() ==> !is_ws(s[skip_ws_from(s, i)]),
    decreases s.len() - i,
{
    if i < s.len() && is_ws(s[i]) {
        lemma_skip_ws_bounds(s, i + 1);
    }
}

pub proof fn lemma_trim_end_bounds(s: Seq<char>, j: int)
    requires
        0 <= j <= s.len(),
    ensures
        0 <= trim_end_at(s, j) <= j,
        forall|k: int| trim_end_at(s, j) <= k < j ==> is_ws(#[trigger] s[k]),
        trim_end_at(s, j) > 0 ==> !is_ws(s[trim_end_at(s, j) - 1]),
    decreases j,
{
    if 0 < j && is_ws(s[j - 1]) {
        lemma_trim_end_bounds(s, j - 1);
    }
}

/// `push` on a `String` appends one character.
#[verifier::external_body]
pub fn push_char(s: &mut String, c: char)
    ensures
        final(s)@ == old(s)@.push(c),
{
    s.push(c);
}

/// The characters of `s`, in order.
pub fn chars_of(s: &str) -> (v: Vec<char>)
    ensures
        v@ == s@,
{
    let mut v: Vec<char> = Vec::new();
    for c in it: s.chars()
        invariant
            v@ == it.seq().take(it.index() as int),
            it.seq() == s@,
    {
        v.push(c);
    }
    v
}

/// A `String` holding `cs[from..to]`.
pub fn string_from_range(cs: &[char], from: usize, to: usize) -> (s: String)
    requires
        from <= to <= cs@.len(),
    ensures
        s@ == cs@.subrange(from as int, to as int),
{
    let mut s = String::new();
    let mut i = from;
    while i < to
        invariant
            from <= i <= to <= cs@.len(),
            s@ == cs@.subrange(from as int, i as int),
        decreases to - i,
    {
        push_char(&mut s, cs[i]);
        i = i + 1;
    }
    s
}

pub fn string_from_chars(cs: &[char]) -> (s: String)
    ensures
        s@ == cs@,
{
    let s = string_from_range(cs, 0, cs.len());
    assert(cs@.subrange(0, cs@.len() as int) =~= cs@);
    s
}

/// Appends `cs[from..to]` to `s`.
pub fn push_range(s: &mut String, cs: &[char], from: usize, to: usize)
    requires
        from <= to <= cs@.len(),
    ensures
        final(s)@ == old(s)@ + cs@.subrange(from as int, to as int),
{
    let ghost start = s@;
    let mut i = from;
    while i < to
        invariant
            from <= i <= to <= cs@.len(),
            s@ == start + cs@.subrange(from as int, i as int),
        decreases to - i,
    {
        push_char(s, cs[i]);
        i = i + 1;
        assert(cs@.subrange(from as int, i as int) =~= cs@.subrange(from as int, i - 1).push(
            cs@[i - 1],
        ));
    }
}

/// Appends the characters of `t` to `s`.
pub fn push_str(s: &mut String, t: &str)
    ensures
        final(s)@ == old(s)@ + t@,
{
    s.append(t);
}

/// Returns `(start, end)` such that `cs[start..end]` is `trim(cs[from..to])`.
pub fn trim_bounds(cs: &[char], from: usize, to: usize) -> (r: (usize, usize))
    requires
        from <= to <= cs@.len(),
    ensures
        from <= r.0 <= r.1 <= to,
        cs@.subrange(r.0 as int, r.1 as int) == trim(cs@.subrange(from as int, to as int)),
        cs@.subrange(r.0 as int, to as int) == trim_start(cs@.subrange(from as int, to as int)),
{
    let ghost t = cs@.subrange(from as int, to as int);
    let mut i = from;
    while i < to && is_whitespace(cs[i])
        invariant
            from <= i <= to <= cs@.len(),
            t == cs@.subrange(from as int, to as int),
            skip_ws_from(t, 0) == skip_ws_from(t, i - from),
        decreases to - i,
    {
        i = i + 1;
    }
    proof {
        lemma_skip_ws_bounds(t, 0);
    }
    let ghost ts = t.skip(i - from);
    assert(ts =~= cs@.subrange(i as int, to as int));
    let mut j = to;
    while j > i && is_whitespace(cs[j - 1])
        invariant
            from <= i <= j <= to <= cs@.len(),
            ts == cs@.subrange(i as int, to as int),
            trim_end_at(ts, ts.len() as int) == trim_end_at(ts, j - i),
        decreases j,
    {
        j = j - 1;
    }
    assert(cs@.subrange(i as int, j as int) =~= ts.take(j - i));
    (i, j)
}

/// The trimmed copy of `cs[from..to]`.
pub fn trimmed_string(cs: &[char], from: usize, to: usize) -> (s: String)
    requires
        from <= to <= cs@.len(),
    ensures
        s@ == trim(cs@.subrange(from as int, to as int)),
{
    let (a, b) = trim_bounds(cs, from, to);
    string_from_range(cs, a, b)
}

/// `str::trim` on a whole string slice.
pub fn trim_str(s: &str) -> (r: String)
    ensures
        r@ == trim(s@),
{
    let cs = chars_of(s);
    let r = trimmed_string(&cs, 0, cs.len());
    assert(cs@.subrange(0, cs@.len() as int) =~= s@);
    r
}

/// True when `s` is empty or whitespace only.
pub open spec fn is_blank(s: Seq<char>) -> bool {
    forall|k: int| 0 <= k < s.len() ==> is_ws(#[trigger] s[k])
}

pub proof fn lemma_trim_empty_iff_blank(s: Seq<char>)
    ensures
        (trim(s).len() == 0) <==> is_blank(s),
{
    lemma_skip_ws_bounds(s, 0);
    let ts = trim_start(s);
    lemma_trim_end_bounds(ts, ts.len() as int);
    if trim(s).len() == 0 {
        assert forall|k: int| 0 <= k < s.len() implies is_ws(#[trigger] s[k]) by {
            if k >= skip_ws_from(s, 0) {
                assert(ts[k - skip_ws_from(s, 0)] == s[k]);
            }
        }
    } else {
        let k = skip_ws_from(s, 0);
        assert(k < s.len()) by {
            if k == s.len() {
                assert(ts.len() == 0);
            }
        }
    }
}

pub fn is_blank_str(s: &str) -> (r: bool)
    ensures
        r == is_blank(s@),
{
    let cs = chars_of(s);
    let mut i: usize = 0;
    while i < cs.len()
        invariant
            0 <= i <= cs@.len(),
            cs@ == s@,
            forall|k: int| 0 <= k < i ==> is_ws(#[trigger] cs@[k]),
        decreases cs.len() - i,
    {
        if !is_whitespace(cs[i]) {
            return false;
        }
        i = i + 1;
    }
    true
}

/// Decimal digits of `n`, most significant first, with no leading zeros
/// (`"0"` for zero).
pub open spec fn decimal(n: nat) -> Seq<char>
    decreases n,
{
    if n < 10 {
        seq![digit_char(n)]
    } else {
        decimal(n / 10).push(digit_char(n % 10))
    }
}

pub open spec fn digit_char(d: nat) -> char {
    if d == 0 {
        '0'
    } else if d == 1 {
        '1'
    } else if d == 2 {
        '2'
    } else if d == 3 {
        '3'
    } else if d == 4 {
        '4'
    } else if d == 5 {
        '5'
    } else if d == 6 {
        '6'
    } else if d == 7 {
        '7'
    } else if d == 8 {
        '8'
    } else {
        '9'
    }
}

pub fn digit(d: u64) -> (c: char)
    requires
        d < 10,
    ensures
        c == digit_char(d as nat),
{
    if d == 0 {
        '0'
    } else if d == 1 {
        '1'
    } else if d == 2 {
        '2'
    } else if d == 3 {
        '3'
    } else if d == 4 {
        '4'
    } else if d == 5 {
        '5'
    } else if d == 6 {
        '6'
    } else if d == 7 {
        '7'
    } else if d == 8 {
        '8'
    } else {
        '9'
    }
}

/// Appends the decimal form of `n` to `s`.
pub fn push_decimal(s: &mut String, n: u64)
    ensures
        final(s)@ == old(s)@ + decimal(n as nat),
    decreases n,
{
    if n < 10 {
        push_char(s, digit(n));
        assert(decimal(n as nat) =~= seq![digit_char(n as nat)]);
    } else {
        push_decimal(s, n / 10);
        push_char(s, digit(n % 10));
        assert(old(s)@ + decimal((n / 10) as nat) + seq![digit_char((n % 10) as nat)] =~= old(
            s,
        )@ + decimal(n as nat));
    }
}

/// Equality of two character sequences.
pub fn chars_equal(a: &[char], b: &[char]) -> (r: bool)
    ensures
        r == (a@ == b@),
{
    if a.len() != b.len() {
        return false;
    }
    let mut i: usize = 0;
    while i < a.len()
        invariant
            0 <= i <= a@.len(),
            a@.len() == b@.len(),
            forall|k: int| 0 <= k < i ==> a@[k] == b@[k],
        decreases a.len() - i,
    {
        if a[i] != b[i] {
            return false;
        }
        i = i + 1;
    }
    assert(a@ =~= b@);
    true
}

/// Equality of two string slices by their characters.
pub fn str_equal(a: &str, b: &str) -> (r: bool)
    ensures
        r == (a@ == b@),
{
    let x = chars_of(a);
    let y = chars_of(b);
    chars_equal(&x, &y)
}

/// `cs[at..at + p.len()] == p`.
pub open spec fn occurs_at(s: Seq<char>, p: Seq<char>, at: int) -> bool {
    0 <= at && at + p.len() <= s.len() && s.subrange(at, at + p.len()) == p
}

pub open spec fn contains_seq(s: Seq<char>, p: Seq<char>) -> bool {
    exists|at: int| occurs_at(s, p, at)
}

pub fn matches_at(s: &[char], p: &[char], at: usize) -> (r: bool)
    ensures
        r == occurs_at(s@, p@, at as int),
{
    if at > s.len() || p.len() > s.len() - at {
        return false;
    }
    let mut i: usize = 0;
    while i < p.len()
        invariant
            0 <= i <= p@.len(),
            at + p@.len() <= s@.len(),
            s@.len() <= usize::MAX,
            forall|k: int| 0 <= k < i ==> s@[at + k] == p@[k],
        decreases p.len() - i,
    {
        if s[at + i] != p[i] {
            assert(s@.subrange(at as int, at + p@.len())[i as int] != p@[i as int]);
            return false;
        }
        i = i + 1;
    }
    assert(s@.subrange(at as int, at + p@.len()) =~= p@);
    true
}

pub fn contains_chars(s: &[char], p: &[char]) -> (r: bool)
    ensures
        r == contains_seq(s@, p@),
{
    if p.len() > s.len() {
        assert forall|at: int| !occurs_at(s@, p@, at) by {}
        return false;
    }
    let mut at: usize = 0;
    let last = s.len() - p.len();
    while at <= last
        invariant
            p@.len() <= s@.len(),
            last == s@.len() - p@.len(),
            0 <= at <= s@.len() - p@.len() + 1,
            forall|k: int| 0 <= k < at ==> !occurs_at(s@, p@, k),
        decreases s.len() - p.len() + 1 - at,
    {
        if matches_at(s, p, at) {
            return true;
        }
        if at == last {
            assert forall|k: int| !occurs_at(s@, p@, k) by {}
            return false;
        }
        at = at + 1;
    }
    assert forall|k: int| !occurs_at(s@, p@, k) by {}
    false
}

/// `str::contains` for string slices.
pub fn str_contains(s: &str, p: &str) -> (r: bool)
    ensures
        r == contains_seq(s@, p@),
{
    let x = chars_of(s);
    let y = chars_of(p);
    contains_chars(&x, &y)
}

/// `str::starts_with` for string slices.
pub fn str_starts_with(s: &str, p: &str) -> (r: bool)
    ensures
        r == occurs_at(s@, p@, 0),
{
    let x = chars_of(s);
    let y = chars_of(p);
    matches_at(&x, &y, 0)
}


/// Position of the first occurrence of `p` in `s` at or after `i`, or
/// `s.len()` when there is none.
pub open spec fn find_from(s: Seq<char>, p: Seq<char>, i: int) -> int
    decreases s.len() - i,
{
    if i < 0 || i >= s.len() || i + p.len() > s.len() {
        s.len() as int
    } else if occurs_at(s, p, i) {
        i
    } else {
        find_from(s, p, i + 1)
    }
}

pub proof fn lemma_find_from(s: Seq<char>, p: Seq<char>, i: int)
    requires
        0 <= i <= s.len(),
    ensures
        i <= find_from(s, p, i) <= s.len(),
        find_from(s, p, i) < s.len() ==> occurs_at(s, p, find_from(s, p, i)),
        forall|k: int| i <= k < find_from(s, p, i) ==> !occurs_at(s, p, k),
    decreases s.len() - i,
{
    if i >= s.len() || i + p.len() > s.len() {
        assert forall|k: int| i <= k < s.len() implies !occurs_at(s, p, k) by {}
    } else if !occurs_at(s, p, i) {
        lemma_find_from(s, p, i + 1);
    }
}

/// The pieces of `s[i..]` separated by the non-empty pattern `p`, as
/// `(start, end)` positions (`str::split`: an empty trailing piece is kept).
pub open spec fn split_from(s: Seq<char>, p: Seq<char>, i: int) -> Seq<(int, int)>
    decreases s.len() - i,
{
    if p.len() == 0 || i < 0 || i > s.len() {
        seq![]
    } else {
        let j = find_from(s, p, i);
        if j >= s.len() {
            seq![(i, s.len() as int)]
        } else {
            proof {
                lemma_find_from(s, p, i);
            }
            seq![(i, j)].add(split_from(s, p, j + p.len()))
        }
    }
}

pub open spec fn split_ranges(s: Seq<char>, p: Seq<char>) -> Seq<(int, int)> {
    split_from(s, p, 0)
}

/// `s.split(p)` as character sequences.
pub open spec fn split(s: Seq<char>, p: Seq<char>) -> Seq<Seq<char>> {
    split_ranges(s, p).map_values(|r: (int, int)| s.subrange(r.0, r.1))
}

pub open spec fn as_int_pairs(v: Seq<(usize, usize)>) -> Seq<(int, int)> {
    v.map_values(|r: (usize, usize)| (r.0 as int, r.1 as int))
}

/// First occurrence of `p` in `s` at or after `i`, or `s.len()`.
pub fn find_chars_from(s: &[char], p: &[char], i: usize) -> (r: usize)
    requires
        i <= s@.len(),
        p@.len() > 0,
    ensures
        r as int == find_from(s@, p@, i as int),
{
    let mut k = i;
    while k < s.len() && p.len() <= s.len() - k
        invariant
            i <= k <= s@.len(),
            find_from(s@, p@, i as int) == find_from(s@, p@, k as int),
        decreases s.len() - k,
    {
        if matches_at(s, p, k) {
            return k;
        }
        k = k + 1;
    }
    s.len()
}

/// The `(start, end)` positions of the pieces of `s` split on `p`.
pub fn split_chars(s: &[char], p: &[char]) -> (r: Vec<(usize, usize)>)
    requires
        p@.len() > 0,
    ensures
        as_int_pairs(r@) == split_ranges(s@, p@),
        forall|k: int| 0 <= k < r@.len() ==> (#[trigger] r@[k]).0 <= r@[k].1 <= s@.len(),
{
    let mut out: Vec<(usize, usize)> = Vec::new();
    let mut i: usize = 0;
    loop
        invariant
            i <= s@.len(),
            p@.len() > 0,
            as_int_pairs(out@) + split_from(s@, p@, i as int) == split_ranges(s@, p@),
            forall|k: int| 0 <= k < out@.len() ==> (#[trigger] out@[k]).0 <= out@[k].1 <= s@.len(),
        decreases s@.len() - i,
    {
        let j = find_chars_from(s, p, i);
        proof {
            lemma_find_from(s@, p@, i as int);
        }
        if j >= s.len() {
            let ghost before = as_int_pairs(out@);
            out.push((i, s.len()));
            assert(as_int_pairs(out@) =~= before.push((i as int, s@.len() as int)));
            assert(split_from(s@, p@, i as int) =~= seq![(i as int, s@.len() as int)]);
            assert(as_int_pairs(out@) =~= split_ranges(s@, p@));
            return out;
        }
        let ghost before = as_int_pairs(out@);
        out.push((i, j));
        assert(as_int_pairs(out@) =~= before.push((i as int, j as int)));
        assert(split_from(s@, p@, i as int) =~= seq![(i as int, j as int)].add(
            split_from(s@, p@, j + p@.len()),
        ));
        assert(before + split_from(s@, p@, i as int) =~= as_int_pairs(out@) + split_from(
            s@,
            p@,
            j + p@.len(),
        ));
        i = j + p.len();
    }
}

pub open spec fn newline() -> Seq<char> {
    seq!['\n']
}

/// End of a line's content: one `'\r'` before the newline is dropped.
pub open spec fn line_content_end(s: Seq<char>, i: int, j: int) -> int {
    if j < s.len() && j > i && s[j - 1] == '\r' {
        j - 1
    } else {
        j
    }
}

/// `str::lines` from position `i`, as `(start, end)` positions.
pub open spec fn lines_from(s: Seq<char>, i: int) -> Seq<(int, int)>
    decreases s.len() - i,
{
    if i < 0 || i >= s.len() {
        seq![]
    } else {
        proof {
            lemma_find_from(s, newline(), i);
        }
        let j = find_from(s, newline(), i);
        if j >= s.len() {
            seq![(i, j)]
        } else {
            seq![(i, line_content_end(s, i, j))].add(lines_from(s, j + 1))
        }
    }
}

pub open spec fn line_ranges(s: Seq<char>) -> Seq<(int, int)> {
    lines_from(s, 0)
}

/// `s.lines()` as character sequences.
pub open spec fn lines(s: Seq<char>) -> Seq<Seq<char>> {
    line_ranges(s).map_values(|r: (int, int)| s.subrange(r.0, r.1))
}

/// The `(start, end)` positions of the lines of `s`.
pub fn line_bounds(s: &[char]) -> (r: Vec<(usize, usize)>)
    ensures
        as_int_pairs(r@) == line_ranges(s@),
        forall|k: int| 0 <= k < r@.len() ==> (#[trigger] r@[k]).0 <= r@[k].1 <= s@.len(),
{
    let nl: Vec<char> = vec!['\n'];
    assert(nl@ =~= newline());
    let mut out: Vec<(usize, usize)> = Vec::new();
    let mut i: usize = 0;
    while i < s.len()
        invariant
            i <= s@.len(),
            nl@ == newline(),
            as_int_pairs(out@) + lines_from(s@, i as int) == line_ranges(s@),
            forall|k: int| 0 <= k < out@.len() ==> (#[trigger] out@[k]).0 <= out@[k].1 <= s@.len(),
        decreases s@.len() - i,
    {
        let j = find_chars_from(s, &nl, i);
        proof {
            lemma_find_from(s@, newline(), i as int);
        }
        let e = if j < s.len() && j > i && s[j - 1] == '\r' {
            j - 1
        } else {
            j
        };
        let ghost before = as_int_pairs(out@);
        out.push((i, e));
        assert(as_int_pairs(out@) =~= before.push((i as int, e as int)));
        if j >= s.len() {
            assert(lines_from(s@, i as int) =~= seq![(i as int, e as int)]);
            assert(as_int_pairs(out@) =~= line_ranges(s@));
            return out;
        }
        assert(lines_from(s@, i as int) =~= seq![(i as int, e as int)].add(
            lines_from(s@, j + 1),
        ));
        assert(before + lines_from(s@, i as int) =~= as_int_pairs(out@) + lines_from(
            s@,
            j + 1,
        ));
        i = j + 1;
    }
    assert(lines_from(s@, i as int) =~= Seq::<(int, int)>::empty());
    assert(as_int_pairs(out@) =~= line_ranges(s@));
    out
}

/// Parts joined with a separator (`[T]::join`).
pub open spec fn join(parts: Seq<Seq<char>>, sep: Seq<char>) -> Seq<char>
    decreases parts.len(),
{
    if parts.len() == 0 {
        seq![]
    } else if parts.len() == 1 {
        parts[0]
    } else {
        join(parts.drop_last(), sep) + sep + parts.last()
    }
}

pub open spec fn views(v: Seq<String>) -> Seq<Seq<char>> {
    v.map_values(|s: String| s@)
}

/// `parts.join(sep)`.
pub fn join_strings(parts: &[String], sep: &str) -> (r: String)
    ensures
        r@ == join(views(parts@), sep@),
{
    let mut out = String::new();
    let mut i: usize = 0;
    while i < parts.len()
        invariant
            0 <= i <= parts@.len(),
            out@ == join(views(parts@.take(i as int)), sep@),
        decreases parts.len() - i,
    {
        if i > 0 {
            push_str(&mut out, sep);
        }
        push_str(&mut out, parts[i].as_str());
        assert(views(parts@.take(i + 1)).drop_last() =~= views(parts@.take(i as int)));
        assert(views(parts@.take(i + 1)).last() == parts@[i as int]@);
        i = i + 1;
    }
    assert(parts@.take(parts@.len() as int) =~= parts@);
    out
}


/// Number of bytes of `c` in UTF-8 (`char::len_utf8`).
pub open spec fn utf8_width(c: char) -> int {
    if (c as u32) < 0x80 {
        1
    } else if (c as u32) < 0x800 {
        2
    } else if (c as u32) < 0x10000 {
        3
    } else {
        4
    }
}

pub fn char_utf8_width(c: char) -> (r: usize)
    ensures
        r as int == utf8_width(c),
{
    let v = c as u32;
    if v < 0x80 {
        1
    } else if v < 0x800 {
        2
    } else if v < 0x10000 {
        3
    } else {
        4
    }
}

/// Length of `s` in UTF-8 bytes.
pub open spec fn byte_len(s: Seq<char>) -> int
    decreases s.len(),
{
    if s.len() == 0 {
        0
    } else {
        byte_len(s.drop_last()) + utf8_width(s.last())
    }
}

/// Byte offset of character position `k` in `s`.
pub open spec fn byte_at(s: Seq<char>, k: int) -> int {
    byte_len(s.take(k))
}

pub proof fn lemma_byte_at_step(s: Seq<char>, k: int)
    requires
        0 <= k < s.len(),
    ensures
        byte_at(s, k + 1) == byte_at(s, k) + utf8_width(s[k]),
{
    assert(s.take(k + 1).drop_last() =~= s.take(k));
}

pub proof fn lemma_byte_at_mono(s: Seq<char>, j: int, k: int)
    requires
        0 <= j <= k <= s.len(),
    ensures
        byte_at(s, j) + (k - j) <= byte_at(s, k),
        j < k ==> byte_at(s, j) < byte_at(s, k),
        byte_at(s, j) >= 0,
    decreases k - j,
{
    if j < k {
        lemma_byte_at_mono(s, j, k - 1);
        lemma_byte_at_step(s, k - 1);
    } else {
        lemma_byte_len_nonneg(s.take(j));
    }
}

pub proof fn lemma_byte_len_nonneg(s: Seq<char>)
    ensures
        byte_len(s) >= s.len(),
    decreases s.len(),
{
    if s.len() > 0 {
        lemma_byte_len_nonneg(s.drop_last());
    }
}

/// `off[k]` is the byte offset of character `k`, for `k` in `0..=s.len()`.
pub fn byte_offsets(s: &[char]) -> (off: Vec<usize>)
    requires
        byte_len(s@) <= u32::MAX,
    ensures
        off@.len() == s@.len() + 1,
        forall|k: int| 0 <= k <= s@.len() ==> #[trigger] off@[k] as int == byte_at(s@, k),
{
    let mut off: Vec<usize> = Vec::new();
    let mut acc: usize = 0;
    let mut k: usize = 0;
    off.push(0);
    assert(s@.take(0) =~= Seq::<char>::empty());
    while k < s.len()
        invariant
            0 <= k <= s@.len(),
            byte_len(s@) <= u32::MAX,
            off@.len() == k + 1,
            acc as int == byte_at(s@, k as int),
            forall|j: int| 0 <= j <= k ==> #[trigger] off@[j] as int == byte_at(s@, j),
        decreases s.len() - k,
    {
        proof {
            lemma_byte_at_step(s@, k as int);
            lemma_byte_at_mono(s@, k + 1, s@.len() as int);
            assert(s@.take(s@.len() as int) =~= s@);
        }
        acc = acc + char_utf8_width(s[k]);
        k = k + 1;
        off.push(acc);
    }
    off
}

/// The character position whose byte offset is `b`, if `b` is a boundary.
pub fn char_index_of_byte(s: Ghost<Seq<char>>, off: &Vec<usize>, b: usize) -> (r: Option<usize>)
    requires
        off@.len() == s@.len() + 1,
        forall|k: int| 0 <= k <= s@.len() ==> #[trigger] off@[k] as int == byte_at(s@, k),
    ensures
        match r {
            Some(k) => k <= s@.len() && byte_at(s@, k as int) == b,
            None => forall|k: int| 0 <= k <= s@.len() ==> byte_at(s@, k) != b,
        },
{
    let mut lo: usize = 0;
    let mut hi: usize = off.len();
    while lo < hi
        invariant
            0 <= lo <= hi <= off@.len(),
            off@.len() == s@.len() + 1,
            forall|k: int| 0 <= k <= s@.len() ==> #[trigger] off@[k] as int == byte_at(s@, k),
            forall|k: int| 0 <= k < lo ==> byte_at(s@, k) < b,
            forall|k: int| hi <= k <= s@.len() ==> byte_at(s@, k) > b,
        decreases hi - lo,
    {
        let mid = lo + (hi - lo) / 2;
        if off[mid] == b {
            return Some(mid);
        } else if off[mid] < b {
            proof {
                assert forall|k: int| 0 <= k < mid + 1 implies byte_at(s@, k) < b by {
                    lemma_byte_at_mono(s@, k, mid as int);
                }
            }
            lo = mid + 1;
        } else {
            proof {
                assert forall|k: int| mid <= k <= s@.len() implies byte_at(s@, k) > b by {
                    lemma_byte_at_mono(s@, mid as int, k);
                }
            }
            hi = mid;
        }
    }
    None
}

} // verus!
