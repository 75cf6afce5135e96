//! Character-level text handling: searching, trimming, splitting into lines
//! and words, number rendering and parsing, and ordering.
//!
//! Text is modelled as the sequence of its Unicode scalar values, which is the
//! view Verus gives `str` and `String`. Every operation here is specified
//! over that view.
use vstd::prelude::*;

verus! {

// ---------------------------------------------------------------------------
// Conversions between strings and character vectors
// ---------------------------------------------------------------------------

/// Appends one character to a `String`.
///
/// Trusted: calls `String::push`, which vstd gives no specification; the
/// contract claims that the string's text afterwards is its text before
/// with `c` added at the end.
#[verifier::external_body]
pub(crate) fn push_char(s: &mut String, c: char)
    ensures
        final(s)@ == old(s)@.push(c),
{
    s.push(c);
}

/// The characters of `s`, in order.
pub fn chars_of(s: &str) -> (v: Vec<char>)
    ensures
        v@ == s@,
{
    let mut v: Vec<char> = Vec::new();
    for c in it: s.chars()
        invariant
            v@ == it.seq().take(it.index() as int),
    {
        v.push(c);
    }
    v
}

/// A `String` holding exactly the characters `v`.
pub fn string_of(v: &[char]) -> (s: String)
    ensures
        s@ == v@,
{
    let mut s = String::new();
    let mut i: usize = 0;
    while i < v.len()
        invariant
            0 <= i <= v.len(),
            s@ == v@.take(i as int),
        decreases v.len() - i,
    {
        push_char(&mut s, v[i]);
        assert(v@.take(i + 1) =~= v@.take(i as int).push(v@[i as int]));
        i += 1;
    }
    assert(v@.take(v.len() as int) =~= v@);
    s
}

/// The characters of `v[start..end]` as a `String`.
pub fn string_of_range(v: &[char], start: usize, end: usize) -> (s: String)
    requires
        start <= end <= v.len(),
    ensures
        s@ == v@.subrange(start as int, end as int),
{
    let mut s = String::new();
    let mut i: usize = start;
    while i < end
        invariant
            start <= i <= end <= v.len(),
            s@ == v@.subrange(start as int, i as int),
        decreases end - i,
    {
        push_char(&mut s, v[i]);
        assert(v@.subrange(start as int, i + 1) =~= v@.subrange(start as int, i as int).push(
            v@[i as int],
        ));
        i += 1;
    }
    s
}

/// Appends the characters `v[start..end]` to `s`.
pub fn push_range(s: &mut String, v: &[char], start: usize, end: usize)
    requires
        start <= end <= v.len(),
    ensures
        final(s)@ == old(s)@ + v@.subrange(start as int, end as int),
{
    let mut i: usize = start;
    while i < end
        invariant
            start <= i <= end <= v.len(),
            s@ == old(s)@ + v@.subrange(start as int, i as int),
        decreases end - i,
    {
        push_char(s, v[i]);
        assert(v@.subrange(start as int, i + 1) =~= v@.subrange(start as int, i as int).push(
            v@[i as int],
        ));
        i += 1;
    }
}

/// Whether two character sequences are equal.
pub fn chars_eq(a: &[char], b: &[char]) -> (r: bool)
    ensures
        r == (a@ == b@),
{
    if a.len() != b.len() {
        return false;
    }
    let mut i: usize = 0;
    while i < a.len()
        invariant
            a.len() == b.len(),
            0 <= i <= a.len(),
            forall|j: int| 0 <= j < i ==> a@[j] == b@[j],
        decreases a.len() - i,
    {
        if a[i] != b[i] {
            return false;
        }
        i += 1;
    }
    assert(a@ =~= b@);
    true
}

/// Whether the text `s` is exactly the text `t`.
pub fn str_eq(s: &str, t: &str) -> (r: bool)
    ensures
        r == (s@ == t@),
{
    let a = chars_of(s);
    let b = chars_of(t);
    chars_eq(a.as_slice(), b.as_slice())
}

// ---------------------------------------------------------------------------
// Searching
// ---------------------------------------------------------------------------

/// `n` occurs in `h` starting at position `i`.
pub open spec fn occurs_at(h: Seq<char>, n: Seq<char>, i: int) -> bool {
    0 <= i && i + n.len() <= h.len() && h.subrange(i, i + n.len()) == n
}

/// The first position at or after `i` where `n` occurs in `h`.
pub open spec fn find_from(h: Seq<char>, n: Seq<char>, i: int) -> Option<int>
    decreases h.len() + 1 - i,
{
    if i < 0 || i + n.len() > h.len() {
        None
    } else if occurs_at(h, n, i) {
        Some(i)
    } else {
        find_from(h, n, i + 1)
    }
}

/// The first position where `n` occurs in `h` (`str::find`).
pub open spec fn find_spec(h: Seq<char>, n: Seq<char>) -> Option<int> {
    find_from(h, n, 0)
}

/// `h` begins with `p`.
pub open spec fn starts_with_spec(h: Seq<char>, p: Seq<char>) -> bool {
    p.len() <= h.len() && h.take(p.len() as int) == p
}

/// `h` ends with `p`.
pub open spec fn ends_with_spec(h: Seq<char>, p: Seq<char>) -> bool {
    p.len() <= h.len() && h.skip(h.len() - p.len()) == p
}

/// An optional index, read as an integer.
pub open spec fn opt_int(o: Option<usize>) -> Option<int> {
    match o {
        Some(i) => Some(i as int),
        None => None,
    }
}

/// What `find_from` returns, characterised.
pub proof fn lemma_find_from(h: Seq<char>, n: Seq<char>, i: int)
    requires
        0 <= i,
    ensures
        match find_from(h, n, i) {
            Some(k) => i <= k && occurs_at(h, n, k) && forall|j: int|
                i <= j < k ==> !occurs_at(h, n, j),
            None => forall|j: int| i <= j ==> !occurs_at(h, n, j),
        },
    decreases h.len() + 1 - i,
{
    if i + n.len() > h.len() {
    } else if occurs_at(h, n, i) {
    } else {
        lemma_find_from(h, n, i + 1);
    }
}

/// A first occurrence is what `find_from` returns.
pub proof fn lemma_find_from_first(h: Seq<char>, n: Seq<char>, i: int, k: int)
    requires
        0 <= i <= k,
        occurs_at(h, n, k),
        forall|j: int| i <= j < k ==> !occurs_at(h, n, j),
    ensures
        find_from(h, n, i) == Some(k),
    decreases k - i,
{
    if i < k {
        assert(!occurs_at(h, n, i));
        lemma_find_from_first(h, n, i + 1, k);
    }
}

/// Whether `n` occurs in `h` at `i`.
fn matches_at(h: &[char], n: &[char], i: usize) -> (r: bool)
    requires
        i + n.len() <= h.len(),
    ensures
        r == occurs_at(h@, n@, i as int),
{
    let mut k: usize = 0;
    while k < n.len()
        invariant
            0 <= k <= n.len(),
            i + n.len() <= h.len(),
            forall|j: int| 0 <= j < k ==> h@[i + j] == n@[j],
        decreases n.len() - k,
    {
        if h[i + k] != n[k] {
            assert(h@.subrange(i as int, i + n.len())[k as int] != n@[k as int]);
            return false;
        }
        k += 1;
    }
    assert(h@.subrange(i as int, i + n.len()) =~= n@);
    true
}

/// The first position where `n` occurs in `h`.
pub fn find(h: &[char], n: &[char]) -> (r: Option<usize>)
    ensures
        opt_int(r) == find_spec(h@, n@),
{
    find_at_or_after(h, n, 0)
}

/// The first position at or after `start` where `n` occurs in `h`.
pub fn find_at_or_after(h: &[char], n: &[char], start: usize) -> (r: Option<usize>)
    ensures
        opt_int(r) == find_from(h@, n@, start as int),
{
    if n.len() > h.len() || start > h.len() - n.len() {
        return None;
    }
    let mut i: usize = start;
    loop
        invariant
            n.len() <= h.len(),
            start <= i <= h.len() - n.len(),
            find_from(h@, n@, start as int) == find_from(h@, n@, i as int),
        decreases h.len() - i,
    {
        if matches_at(h, n, i) {
            return Some(i);
        }
        if i == h.len() - n.len() {
            assert(find_from(h@, n@, i + 1) is None);
            return None;
        }
        i += 1;
    }
}

/// Whether `h` begins with `p`.
pub fn starts_with(h: &[char], p: &[char]) -> (r: bool)
    ensures
        r == starts_with_spec(h@, p@),
{
    if p.len() > h.len() {
        return false;
    }
    let r = matches_at(h, p, 0);
    assert(h@.subrange(0, p.len() as int) =~= h@.take(p.len() as int));
    r
}

/// Whether `h` ends with `p`.
pub fn ends_with(h: &[char], p: &[char]) -> (r: bool)
    ensures
        r == ends_with_spec(h@, p@),
{
    if p.len() > h.len() {
        return false;
    }
    let r = matches_at(h, p, h.len() - p.len());
    assert(h@.subrange(h.len() - p.len(), h.len() as int) =~= h@.skip(h.len() - p.len()));
    r
}

// ---------------------------------------------------------------------------
// Index of a character
// ---------------------------------------------------------------------------

/// The position of the first `c` in `s`, or `s.len()` when there is none.
pub open spec fn index_of(s: Seq<char>, c: char) -> int
    decreases s.len(),
{
    if s.len() == 0 {
        0
    } else if s[0] == c {
        0
    } else {
        1 + index_of(s.drop_first(), c)
    }
}

/// What `index_of` returns, characterised.
pub proof fn lemma_index_of(s: Seq<char>, c: char)
    ensures
        0 <= index_of(s, c) <= s.len(),
        index_of(s, c) < s.len() ==> s[index_of(s, c)] == c,
        forall|j: int| 0 <= j < index_of(s, c) ==> s[j] != c,
        index_of(s, c) == s.len() <==> !s.contains(c),
    decreases s.len(),
{
    if s.len() > 0 && s[0] != c {
        lemma_index_of(s.drop_first(), c);
        assert forall|j: int| 0 <= j < index_of(s, c) implies s[j] != c by {
            if j > 0 {
                assert(s[j] == s.drop_first()[j - 1]);
            }
        }
        if s.contains(c) {
            let k = choose|k: int| 0 <= k < s.len() && s[k] == c;
            assert(s.drop_first()[k - 1] == c);
        }
    }
}

/// The position of the first `c` in `s` at or after `start`, or `s.len()`.
pub fn index_of_from(s: &[char], start: usize, c: char) -> (r: usize)
    requires
        start <= s.len(),
    ensures
        r == start + index_of(s@.skip(start as int), c),
        start <= r <= s.len(),
{
    let mut i: usize = start;
    proof {
        lemma_index_of(s@.skip(start as int), c);
    }
    while i < s.len() && s[i] != c
        invariant
            start <= i <= s.len(),
            index_of(s@.skip(start as int), c) == (i - start) + index_of(s@.skip(i as int), c),
        decreases s.len() - i,
    {
        assert(s@.skip(i as int).drop_first() =~= s@.skip(i + 1));
        i += 1;
    }
    i
}

// ---------------------------------------------------------------------------
// Whitespace and trimming
// ---------------------------------------------------------------------------

/// A character with the Unicode `White_Space` property (`char::is_whitespace`).
pub open spec fn is_ws(c: char) -> bool {
    let u = c as u32;
    ||| 0x09 <= u <= 0x0d
    ||| u == 0x20
    ||| u == 0x85
    ||| u == 0xa0
    ||| u == 0x1680
    ||| 0x2000 <= u <= 0x200a
    ||| u == 0x2028
    ||| u == 0x2029
    ||| u == 0x202f
    ||| u == 0x205f
    ||| u == 0x3000
}

/// Whether `c` is whitespace.
pub fn is_whitespace(c: char) -> (r: bool)
    ensures
        r == is_ws(c),
{
    let u = c as u32;
    (0x09 <= u && u <= 0x0d) || u == 0x20 || u == 0x85 || u == 0xa0 || u == 0x1680 || (0x2000 <= u
        && u <= 0x200a) || u == 0x2028 || u == 0x2029 || u == 0x202f || u == 0x205f || u == 0x3000
}

/// `s` without its leading whitespace.
pub open spec fn trim_start_spec(s: Seq<char>) -> Seq<char>
    decreases s.len(),
{
    if s.len() > 0 && is_ws(s[0]) {
        trim_start_spec(s.drop_first())
    } else {
        s
    }
}

/// `s` without its trailing whitespace.
pub open spec fn trim_end_spec(s: Seq<char>) -> Seq<char>
    decreases s.len(),
{
    if s.len() > 0 && is_ws(s.last()) {
        trim_end_spec(s.drop_last())
    } else {
        s
    }
}

/// `s` without leading and trailing whitespace (`str::trim`).
pub open spec fn trim_spec(s: Seq<char>) -> Seq<char> {
    trim_end_spec(trim_start_spec(s))
}

/// The bounds of `trim_spec(v)` inside `v`.
pub fn trim_bounds(v: &[char]) -> (r: (usize, usize))
    ensures
        r.0 <= r.1 <= v.len(),
        v@.subrange(r.0 as int, r.1 as int) == trim_spec(v@),
{
    let mut lo: usize = 0;
    assert(v@.skip(0) =~= v@);
    while lo < v.len() && is_whitespace(v[lo])
        invariant
            0 <= lo <= v.len(),
            trim_start_spec(v@) == trim_start_spec(v@.skip(lo as int)),
        decreases v.len() - lo,
    {
        assert(v@.skip(lo as int).drop_first() =~= v@.skip(lo + 1));
        lo += 1;
    }
    let ghost t = v@.skip(lo as int);
    assert(trim_start_spec(v@) == t);
    let mut hi: usize = v.len();
    assert(v@.subrange(lo as int, hi as int) =~= t);
    while hi > lo && is_whitespace(v[hi - 1])
        invariant
            lo <= hi <= v.len(),
            t == v@.skip(lo as int),
            trim_end_spec(t) == trim_end_spec(v@.subrange(lo as int, hi as int)),
        decreases hi,
    {
        assert(v@.subrange(lo as int, hi as int).drop_last() =~= v@.subrange(
            lo as int,
            hi - 1,
        ));
        hi -= 1;
    }
    (lo, hi)
}

/// `s` without leading and trailing whitespace.
pub fn trim(s: &str) -> (r: String)
    ensures
        r@ == trim_spec(s@),
{
    let v = chars_of(s);
    let (lo, hi) = trim_bounds(v.as_slice());
    string_of_range(v.as_slice(), lo, hi)
}

// ---------------------------------------------------------------------------
// Lines, fields and words
// ---------------------------------------------------------------------------

/// `l` without one trailing carriage return.
pub open spec fn strip_cr(l: Seq<char>) -> Seq<char> {
    if l.len() > 0 && l.last() == '\r' {
        l.drop_last()
    } else {
        l
    }
}

/// The lines of `s` (`str::lines`): pieces ended by `\n`, each losing one
/// `\r` before the `\n`; a final `\n` does not start another line.
pub open spec fn lines_spec(s: Seq<char>) -> Seq<Seq<char>>
    decreases s.len(),
{
    if s.len() == 0 {
        seq![]
    } else {
        let i = index_of(s, '\n');
        if i >= s.len() {
            seq![s]
        } else {
            proof {
                lemma_index_of(s, '\n');
            }
            seq![strip_cr(s.take(i))] + lines_spec(s.skip(i + 1))
        }
    }
}

/// The pieces of `s` between occurrences of `c` (`str::split` on a char).
pub open spec fn split_spec(s: Seq<char>, c: char) -> Seq<Seq<char>>
    decreases s.len(),
{
    let i = index_of(s, c);
    if i >= s.len() {
        seq![s]
    } else {
        proof {
            lemma_index_of(s, c);
        }
        seq![s.take(i)] + split_spec(s.skip(i + 1), c)
    }
}

/// The length of the leading run of non-whitespace characters of `s`.
pub open spec fn word_len(s: Seq<char>) -> int
    decreases s.len(),
{
    if s.len() == 0 || is_ws(s[0]) {
        0
    } else {
        1 + word_len(s.drop_first())
    }
}

pub proof fn lemma_word_len(s: Seq<char>)
    ensures
        0 <= word_len(s) <= s.len(),
        s.len() > 0 && !is_ws(s[0]) ==> word_len(s) >= 1,
    decreases s.len(),
{
    if s.len() > 0 && !is_ws(s[0]) {
        lemma_word_len(s.drop_first());
    }
}

/// The whitespace-separated words of `s` (`str::split_whitespace`).
pub open spec fn words_spec(s: Seq<char>) -> Seq<Seq<char>>
    decreases s.len(),
{
    if s.len() == 0 {
        seq![]
    } else if is_ws(s[0]) {
        words_spec(s.drop_first())
    } else {
        let k = word_len(s);
        proof {
            lemma_word_len(s);
        }
        seq![s.take(k)] + words_spec(s.skip(k))
    }
}

/// The views of a sequence of character vectors.
pub open spec fn views(v: Seq<Vec<char>>) -> Seq<Seq<char>> {
    v.map_values(|x: Vec<char>| x@)
}

/// The views of a sequence of strings.
pub open spec fn string_views(v: Seq<String>) -> Seq<Seq<char>> {
    v.map_values(|x: String| x@)
}

/// The characters `v[start..end]` as a vector.
pub fn slice_vec(v: &[char], start: usize, end: usize) -> (r: Vec<char>)
    requires
        start <= end <= v.len(),
    ensures
        r@ == v@.subrange(start as int, end as int),
{
    let mut r: Vec<char> = Vec::new();
    let mut i: usize = start;
    while i < end
        invariant
            start <= i <= end <= v.len(),
            r@ == v@.subrange(start as int, i as int),
        decreases end - i,
    {
        r.push(v[i]);
        assert(v@.subrange(start as int, i + 1) =~= v@.subrange(start as int, i as int).push(
            v@[i as int],
        ));
        i += 1;
    }
    r
}

/// The lines of `s`.
pub fn lines(s: &[char]) -> (r: Vec<Vec<char>>)
    ensures
        views(r@) == lines_spec(s@),
{
    let mut r: Vec<Vec<char>> = Vec::new();
    let mut start: usize = 0;
    assert(s@.skip(0) =~= s@);
    assert(views(r@) =~= Seq::<Seq<char>>::empty());
    while start < s.len()
        invariant
            0 <= start <= s.len(),
            lines_spec(s@) == views(r@) + lines_spec(s@.skip(start as int)),
        decreases s.len() - start,
    {
        let ghost t = s@.skip(start as int);
        let nl = index_of_from(s, start, '\n');
        proof {
            lemma_index_of(t, '\n');
        }
        let ghost old_r = views(r@);
        if nl == s.len() {
            let line = slice_vec(s, start, s.len());
            assert(line@ =~= t);
            r.push(line);
            assert(views(r@) =~= old_r.push(line@));
            assert(s@.skip(s.len() as int) =~= Seq::<char>::empty());
            assert(lines_spec(t) == seq![t]);
            assert(lines_spec(s@) =~= views(r@) + lines_spec(s@.skip(s.len() as int)));
            start = s.len();
        } else {
            let end = if nl > start && s[nl - 1] == '\r' {
                nl - 1
            } else {
                nl
            };
            let line = slice_vec(s, start, end);
            assert(line@ =~= strip_cr(t.take(nl - start)));
            r.push(line);
            assert(views(r@) =~= old_r.push(line@));
            assert(t.skip(nl - start + 1) =~= s@.skip(nl + 1));
            assert(lines_spec(s@) =~= views(r@) + lines_spec(s@.skip(nl + 1)));
            start = nl + 1;
        }
    }
    assert(s@.skip(start as int) =~= Seq::<char>::empty());
    assert(views(r@) + lines_spec(s@.skip(start as int)) =~= views(r@));
    r
}

/// The pieces of `s` between occurrences of `c`.
pub fn split(s: &[char], c: char) -> (r: Vec<Vec<char>>)
    ensures
        views(r@) == split_spec(s@, c),
{
    let mut r: Vec<Vec<char>> = Vec::new();
    let mut start: usize = 0;
    assert(s@.skip(0) =~= s@);
    assert(views(r@) =~= Seq::<Seq<char>>::empty());
    loop
        invariant
            0 <= start <= s.len(),
            split_spec(s@, c) == views(r@) + split_spec(s@.skip(start as int), c),
        decreases s.len() - start,
    {
        let ghost t = s@.skip(start as int);
        let i = index_of_from(s, start, c);
        proof {
            lemma_index_of(t, c);
        }
        let piece = slice_vec(s, start, i);
        let ghost old_r = views(r@);
        r.push(piece);
        assert(views(r@) =~= old_r.push(piece@));
        if i == s.len() {
            assert(piece@ =~= t);
            assert(split_spec(t, c) == seq![t]);
            assert(split_spec(s@, c) =~= views(r@));
            return r;
        }
        assert(piece@ =~= t.take(i - start));
        assert(t.skip(i - start + 1) =~= s@.skip(i + 1));
        assert(split_spec(s@, c) =~= views(r@) + split_spec(s@.skip(i + 1), c));
        start = i + 1;
    }
}

/// The whitespace-separated words of `s`.
pub fn words(s: &[char]) -> (r: Vec<Vec<char>>)
    ensures
        views(r@) == words_spec(s@),
{
    let mut r: Vec<Vec<char>> = Vec::new();
    let mut i: usize = 0;
    assert(s@.skip(0) =~= s@);
    assert(views(r@) =~= Seq::<Seq<char>>::empty());
    while i < s.len()
        invariant
            0 <= i <= s.len(),
            words_spec(s@) == views(r@) + words_spec(s@.skip(i as int)),
        decreases s.len() - i,
    {
        let ghost t = s@.skip(i as int);
        if is_whitespace(s[i]) {
            assert(t.drop_first() =~= s@.skip(i + 1));
            i += 1;
        } else {
            let mut j: usize = i;
            while j < s.len() && !is_whitespace(s[j])
                invariant
                    i <= j <= s.len(),
                    t == s@.skip(i as int),
                    word_len(t) == (j - i) + word_len(s@.skip(j as int)),
                decreases s.len() - j,
            {
                assert(s@.skip(j as int).drop_first() =~= s@.skip(j + 1));
                j += 1;
            }
            let w = slice_vec(s, i, j);
            let ghost old_r = views(r@);
            r.push(w);
            assert(views(r@) =~= old_r.push(w@));
            assert(w@ =~= t.take(j - i));
            assert(t.skip(j - i) =~= s@.skip(j as int));
            assert(words_spec(s@) =~= views(r@) + words_spec(s@.skip(j as int)));
            i = j;
        }
    }
    assert(s@.skip(i as int) =~= Seq::<char>::empty());
    assert(views(r@) + words_spec(s@.skip(i as int)) =~= views(r@));
    r
}

// ---------------------------------------------------------------------------
// Numbers
// ---------------------------------------------------------------------------

/// The decimal digit for `d`.
pub open spec fn digit_char(d: nat) -> char {
    (('0' as u32) + d) as char
}

/// The decimal rendering of `n`, without leading zeros.
pub open spec fn decimal(n: nat) -> Seq<char>
    decreases n,
{
    if n < 10 {
        seq![digit_char(n)]
    } else {
        decimal(n / 10).push(digit_char(n % 10))
    }
}

/// The decimal rendering of a signed integer.
pub open spec fn signed_decimal(n: int) -> Seq<char> {
    if n < 0 {
        seq!['-'] + decimal((-n) as nat)
    } else {
        decimal(n as nat)
    }
}

fn digit(d: u64) -> (c: char)
    requires
        d < 10,
    ensures
        c == digit_char(d as nat),
{
    if d == 0 {
        '0'
    } else if d == 1 {
        '1'
    } else if d == 2 {
        '2'
    } else if d == 3 {
        '3'
    } else if d == 4 {
        '4'
    } else if d == 5 {
        '5'
    } else if d == 6 {
        '6'
    } else if d == 7 {
        '7'
    } else if d == 8 {
        '8'
    } else {
        '9'
    }
}

fn decimal_chars(n: u64) -> (r: Vec<char>)
    ensures
        r@ == decimal(n as nat),
    decreases n,
{
    if n < 10 {
        let mut r: Vec<char> = Vec::new();
        r.push(digit(n));
        assert(r@ =~= seq![digit_char(n as nat)]);
        r
    } else {
        let mut r = decimal_chars(n / 10);
        r.push(digit(n % 10));
        r
    }
}

/// The decimal rendering of `n`.
pub fn decimal_text(n: u64) -> (s: String)
    ensures
        s@ == decimal(n as nat),
{
    let v = decimal_chars(n);
    string_of(v.as_slice())
}

/// The decimal rendering of a signed `n`.
pub fn signed_text(n: i64) -> (s: String)
    ensures
        s@ == signed_decimal(n as int),
{
    if n < 0 {
        let m: u64 = if n == i64::MIN {
            9223372036854775808u64
        } else {
            (-n) as u64
        };
        let mut s = String::new();
        push_char(&mut s, '-');
        let d = decimal_text(m);
        s.append(d.as_str());
        assert(s@ =~= seq!['-'] + decimal((-n) as nat));
        s
    } else {
        decimal_text(n as u64)
    }
}

/// The value of the decimal digits `d` (most significant first).
pub open spec fn digits_value(d: Seq<char>) -> nat
    decreases d.len(),
{
    if d.len() == 0 {
        0
    } else {
        digits_value(d.drop_last()) * 10 + ((d.last() as u32) - ('0' as u32)) as nat
    }
}

/// All of `d` are ASCII decimal digits.
pub open spec fn all_digits(d: Seq<char>) -> bool {
    forall|i: int| 0 <= i < d.len() ==> '0' <= #[trigger] d[i] <= '9'
}

/// What `str::parse::<u32>` gives: an optional `+`, then at least one digit
/// and nothing else, with a value that fits in 32 bits.
pub open spec fn parse_u32_spec(s: Seq<char>) -> Option<u32> {
    let d = if s.len() > 0 && s[0] == '+' {
        s.drop_first()
    } else {
        s
    };
    if d.len() > 0 && all_digits(d) && digits_value(d) <= u32::MAX {
        Some(digits_value(d) as u32)
    } else {
        None
    }
}

proof fn lemma_digits_value_grows(d: Seq<char>, i: int)
    requires
        0 <= i <= d.len(),
        all_digits(d),
    ensures
        digits_value(d.take(i)) <= digits_value(d),
    decreases d.len() - i,
{
    if i < d.len() {
        lemma_digits_value_grows(d, i + 1);
        assert(d.take(i + 1).drop_last() =~= d.take(i));
        assert('0' <= d[i] <= '9');
    } else {
        assert(d.take(i) =~= d);
    }
}

/// Parses `s` as a `u32` the way `str::parse` does.
pub fn parse_u32(s: &[char]) -> (r: Option<u32>)
    ensures
        r == parse_u32_spec(s@),
{
    let start: usize = if s.len() > 0 && s[0] == '+' {
        1
    } else {
        0
    };
    let ghost d = if s@.len() > 0 && s@[0] == '+' {
        s@.drop_first()
    } else {
        s@
    };
    assert(d =~= s@.skip(start as int));
    if start >= s.len() {
        return None;
    }
    let mut v: u64 = 0;
    let mut i: usize = start;
    assert(d.take(0) =~= Seq::<char>::empty());
    while i < s.len()
        invariant
            start <= i <= s.len(),
            start < s.len(),
            d == s@.skip(start as int),
            parse_u32_spec(s@) == (if d.len() > 0 && all_digits(d) && digits_value(d) <= u32::MAX {
                Some(digits_value(d) as u32)
            } else {
                None
            }),
            all_digits(d.take(i - start)),
            v == digits_value(d.take(i - start)),
            v <= u32::MAX,
        decreases s.len() - i,
    {
        let c = s[i];
        if !('0' <= c && c <= '9') {
            assert(d[i - start] == c);
            assert(!all_digits(d));
            assert(parse_u32_spec(s@) is None);
            return None;
        }
        assert(d.take(i - start + 1).drop_last() =~= d.take(i - start));
        assert(all_digits(d.take(i - start + 1)));
        let nv = v * 10 + ((c as u32) - ('0' as u32)) as u64;
        if nv > 4294967295u64 {
            proof {
                if all_digits(d) {
                    lemma_digits_value_grows(d, i - start + 1);
                    assert(digits_value(d) > u32::MAX);
                }
            }
            return None;
        }
        v = nv;
        i += 1;
    }
    assert(d.take(i - start) =~= d);
    Some(v as u32)
}

// ---------------------------------------------------------------------------
// Ordering
// ---------------------------------------------------------------------------

/// Lexicographic order on character sequences, by scalar value; for text
/// this is the order `String`'s `Ord` gives, since UTF-8 preserves it.
pub open spec fn lex_le(a: Seq<char>, b: Seq<char>) -> bool
    decreases a.len(),
{
    if a.len() == 0 {
        true
    } else if b.len() == 0 {
        false
    } else if a[0] != b[0] {
        (a[0] as u32) < (b[0] as u32)
    } else {
        lex_le(a.drop_first(), b.drop_first())
    }
}

/// `lex_le` is total.
pub proof fn lemma_lex_total(a: Seq<char>, b: Seq<char>)
    ensures
        lex_le(a, b) || lex_le(b, a),
    decreases a.len(),
{
    if a.len() > 0 && b.len() > 0 {
        if a[0] == b[0] {
            lemma_lex_total(a.drop_first(), b.drop_first());
        } else {
            vstd::utf8::char_u32_cast(a[0], a[0] as u32);
            vstd::utf8::char_u32_cast(b[0], b[0] as u32);
        }
    }
}

/// `lex_le` is transitive.
pub proof fn lemma_lex_trans(a: Seq<char>, b: Seq<char>, c: Seq<char>)
    requires
        lex_le(a, b),
        lex_le(b, c),
    ensures
        lex_le(a, c),
    decreases a.len(),
{
    if a.len() > 0 && b.len() > 0 && c.len() > 0 && a[0] == b[0] && b[0] == c[0] {
        lemma_lex_trans(a.drop_first(), b.drop_first(), c.drop_first());
    }
}

/// `lex_le` is antisymmetric.
pub proof fn lemma_lex_antisym(a: Seq<char>, b: Seq<char>)
    requires
        lex_le(a, b),
        lex_le(b, a),
    ensures
        a == b,
    decreases a.len(),
{
    if a.len() > 0 && b.len() > 0 {
        if a[0] == b[0] {
            lemma_lex_antisym(a.drop_first(), b.drop_first());
            assert(a.drop_first().len() == b.drop_first().len());
            assert(a.len() == b.len());
            assert forall|i: int| 0 <= i < a.len() implies a[i] == b[i] by {
                if i > 0 {
                    assert(a[i] == a.drop_first()[i - 1]);
                    assert(b[i] == b.drop_first()[i - 1]);
                }
            }
        }
    }
    assert(a =~= b);
}

/// Two sorted lists without repeats that hold the same texts are the same
/// list.
pub proof fn lemma_sorted_unique(x: Seq<Seq<char>>, y: Seq<Seq<char>>)
    requires
        sorted(x),
        sorted(y),
        x.no_duplicates(),
        y.no_duplicates(),
        forall|p: Seq<char>| x.contains(p) <==> y.contains(p),
    ensures
        x == y,
    decreases x.len(),
{
    if x.len() == 0 {
        if y.len() > 0 {
            assert(y.contains(y[0]));
        }
        assert(x =~= y);
    } else {
        assert(x.contains(x[0]));
        assert(y.contains(x[0]));
        let j = choose|j: int| 0 <= j < y.len() && y[j] == x[0];
        assert(y.contains(y[0]));
        assert(x.contains(y[0]));
        let i = choose|i: int| 0 <= i < x.len() && x[i] == y[0];
        if j > 0 {
            assert(lex_le(y[0], y[j]));
        }
        if i > 0 {
            assert(lex_le(x[0], x[i]));
        }
        if i > 0 && j > 0 {
            lemma_lex_antisym(x[0], y[0]);
        }
        assert(x[0] == y[0]);
        let x1 = x.drop_first();
        let y1 = y.drop_first();
        assert forall|p: Seq<char>| x1.contains(p) <==> y1.contains(p) by {
            if x1.contains(p) {
                let a = choose|a: int| 0 <= a < x1.len() && x1[a] == p;
                assert(x[a + 1] == p);
                assert(p != x[0]);
                assert(y.contains(p));
                let b = choose|b: int| 0 <= b < y.len() && y[b] == p;
                assert(b != 0);
                assert(y1[b - 1] == p);
            }
            if y1.contains(p) {
                let b = choose|b: int| 0 <= b < y1.len() && y1[b] == p;
                assert(y[b + 1] == p);
                assert(p != y[0]);
                assert(x.contains(p));
                let a = choose|a: int| 0 <= a < x.len() && x[a] == p;
                assert(a != 0);
                assert(x1[a - 1] == p);
            }
        }
        assert(sorted(x1)) by {
            assert forall|a: int, b: int| 0 <= a < b < x1.len() implies lex_le(x1[a], x1[b]) by {
                assert(lex_le(x[a + 1], x[b + 1]));
            }
        }
        assert(sorted(y1)) by {
            assert forall|a: int, b: int| 0 <= a < b < y1.len() implies lex_le(y1[a], y1[b]) by {
                assert(lex_le(y[a + 1], y[b + 1]));
            }
        }
        assert(x1.no_duplicates()) by {
            assert forall|a: int, b: int| 0 <= a < x1.len() && 0 <= b < x1.len() && a != b implies x1[a] != x1[b] by {
                assert(x[a + 1] != x[b + 1]);
            }
        }
        assert(y1.no_duplicates()) by {
            assert forall|a: int, b: int| 0 <= a < y1.len() && 0 <= b < y1.len() && a != b implies y1[a] != y1[b] by {
                assert(y[a + 1] != y[b + 1]);
            }
        }
        lemma_sorted_unique(x1, y1);
        assert forall|k: int| 0 <= k < x.len() implies x[k] == y[k] by {
            if k > 0 {
                assert(x[k] == x1[k - 1]);
                assert(y[k] == y1[k - 1]);
            }
        }
        assert(x =~= y);
    }
}

/// Whether `a` comes no later than `b`.
pub fn lex_le_exec(a: &[char], b: &[char]) -> (r: bool)
    ensures
        r == lex_le(a@, b@),
{
    let mut i: usize = 0;
    assert(a@.skip(0) =~= a@);
    assert(b@.skip(0) =~= b@);
    while i < a.len() && i < b.len() && a[i] == b[i]
        invariant
            0 <= i <= a.len(),
            i <= b.len(),
            lex_le(a@, b@) == lex_le(a@.skip(i as int), b@.skip(i as int)),
        decreases a.len() - i,
    {
        assert(a@.skip(i as int).drop_first() =~= a@.skip(i + 1));
        assert(b@.skip(i as int).drop_first() =~= b@.skip(i + 1));
        i += 1;
    }
    if i == a.len() {
        true
    } else if i == b.len() {
        false
    } else {
        (a[i] as u32) < (b[i] as u32)
    }
}

/// Every earlier element of `s` comes no later than every later one.
pub open spec fn sorted(s: Seq<Seq<char>>) -> bool {
    forall|i: int, j: int| 0 <= i < j < s.len() ==> lex_le(s[i], s[j])
}

/// Sorts `v` in place, lexicographically.
pub fn sort_texts(v: &mut Vec<Vec<char>>)
    ensures
        sorted(views(final(v)@)),
        views(final(v)@).to_multiset() == views(old(v)@).to_multiset(),
        final(v)@.len() == old(v)@.len(),
{
    let ghost orig = views(v@);
    if v.len() == 0 {
        return;
    }
    let mut i: usize = 1;
    while i < v.len()
        invariant
            1 <= i <= v.len(),
            v@.len() == orig.len(),
            views(v@).to_multiset() == orig.to_multiset(),
            forall|a: int, b: int|
                0 <= a < b < i ==> lex_le(#[trigger] views(v@)[a], #[trigger] views(v@)[b]),
        decreases v.len() - i,
    {
        let mut j: usize = i;
        while j > 0 && !lex_le_exec(v[j - 1].as_slice(), v[j].as_slice())
            invariant
                0 <= j <= i < v.len(),
                v@.len() == orig.len(),
                views(v@).to_multiset() == orig.to_multiset(),
                forall|a: int, b: int|
                    0 <= a < b <= i && a != j && b != j ==> lex_le(
                        #[trigger] views(v@)[a],
                        #[trigger] views(v@)[b],
                    ),
                forall|b: int| j < b <= i ==> lex_le(views(v@)[j as int], #[trigger] views(v@)[b]),
            decreases j,
        {
            let ghost before = views(v@);
            proof {
                lemma_lex_total(before[j - 1], before[j as int]);
            }
            let x = v.remove(j);
            v.insert(j - 1, x);
            proof {
                broadcast use vstd::seq_lib::group_to_multiset_ensures;

                let after = views(v@);
                assert(after =~= before.remove(j as int).insert(j - 1, before[j as int]));
                assert(after.to_multiset() =~= before.to_multiset());
                assert(after =~= before.update(j - 1, before[j as int]).update(
                    j as int,
                    before[j - 1],
                ));
                assert forall|a: int, b: int|
                    0 <= a < b <= i && a != j - 1 && b != j - 1 implies lex_le(
                    #[trigger] after[a],
                    #[trigger] after[b],
                ) by {
                    if b == j {
                        assert(lex_le(before[a], before[j - 1]));
                    } else if a == j {
                        assert(lex_le(before[j - 1], before[b]));
                    } else {
                        assert(lex_le(before[a], before[b]));
                    }
                }
                assert forall|b: int| j - 1 < b <= i implies lex_le(
                    after[j - 1],
                    #[trigger] after[b],
                ) by {
                    if b > j {
                        assert(lex_le(before[j as int], before[b]));
                    }
                }
            }
            j -= 1;
        }
        proof {
            let cur = views(v@);
            assert forall|a: int, b: int| 0 <= a < b < i + 1 implies lex_le(
                #[trigger] cur[a],
                #[trigger] cur[b],
            ) by {
                if a != j && b != j {
                } else if a == j {
                } else {
                    assert(lex_le(cur[j - 1], cur[j as int]));
                    if a < j - 1 {
                        assert(lex_le(cur[a], cur[j - 1]));
                        lemma_lex_trans(cur[a], cur[j - 1], cur[j as int]);
                    }
                }
            }
        }
        i += 1;
    }
}

// ---------------------------------------------------------------------------
// Building text
// ---------------------------------------------------------------------------

/// An owned copy of `s`.
pub fn owned(s: &str) -> (r: String)
    ensures
        r@ == s@,
{
    s.to_owned()
}

/// The concatenation of two texts.
pub fn cat2(a: &str, b: &str) -> (r: String)
    ensures
        r@ == a@ + b@,
{
    let mut r = owned(a);
    r.append(b);
    r
}

/// The concatenation of three texts.
pub fn cat3(a: &str, b: &str, c: &str) -> (r: String)
    ensures
        r@ == a@ + b@ + c@,
{
    let mut r = owned(a);
    r.append(b);
    r.append(c);
    r
}

/// The concatenation of four texts.
pub fn cat4(a: &str, b: &str, c: &str, d: &str) -> (r: String)
    ensures
        r@ == a@ + b@ + c@ + d@,
{
    let mut r = owned(a);
    r.append(b);
    r.append(c);
    r.append(d);
    r
}

/// The concatenation of five texts.
pub fn cat5(a: &str, b: &str, c: &str, d: &str, e: &str) -> (r: String)
    ensures
        r@ == a@ + b@ + c@ + d@ + e@,
{
    let mut r = owned(a);
    r.append(b);
    r.append(c);
    r.append(d);
    r.append(e);
    r
}

/// `parts` joined by `sep` (`[T]::join`).
pub open spec fn join_spec(parts: Seq<Seq<char>>, sep: Seq<char>) -> Seq<char>
    decreases parts.len(),
{
    if parts.len() == 0 {
        Seq::empty()
    } else if parts.len() == 1 {
        parts[0]
    } else {
        join_spec(parts.drop_last(), sep) + sep + parts.last()
    }
}

/// `parts` joined by `sep`.
pub fn join(parts: &[String], sep: &str) -> (r: String)
    ensures
        r@ == join_spec(string_views(parts@), sep@),
{
    let ghost all = string_views(parts@);
    let mut r = String::new();
    let mut i: usize = 0;
    while i < parts.len()
        invariant
            0 <= i <= parts.len(),
            all == string_views(parts@),
            r@ == join_spec(all.take(i as int), sep@),
        decreases parts.len() - i,
    {
        assert(all.take(i + 1).drop_last() =~= all.take(i as int));
        if i > 0 {
            r.append(sep);
        }
        r.append(parts[i].as_str());
        i += 1;
    }
    assert(all.take(parts.len() as int) =~= all);
    r
}

/// Each of `items` with `prefix` in front.
pub open spec fn prefixed(prefix: Seq<char>, items: Seq<Seq<char>>) -> Seq<Seq<char>> {
    items.map_values(|x: Seq<char>| prefix + x)
}

/// Each of `items` with `prefix` in front.
pub fn prefix_all(prefix: &str, items: &[String]) -> (r: Vec<String>)
    ensures
        string_views(r@) == prefixed(prefix@, string_views(items@)),
{
    let mut r: Vec<String> = Vec::new();
    let mut i: usize = 0;
    while i < items.len()
        invariant
            0 <= i <= items.len(),
            string_views(r@) == prefixed(prefix@, string_views(items@).take(i as int)),
        decreases items.len() - i,
    {
        let ghost before = string_views(r@);
        let x = cat2(prefix, items[i].as_str());
        r.push(x);
        assert(string_views(r@) =~= before.push(x@));
        assert(prefixed(prefix@, string_views(items@).take(i + 1)) =~= prefixed(
            prefix@,
            string_views(items@).take(i as int),
        ).push(prefix@ + items@[i as int]@));
        i += 1;
    }
    assert(string_views(items@).take(items.len() as int) =~= string_views(items@));
    r
}

/// Appends all of `more` to `v`.
pub fn extend_strings(v: &mut Vec<String>, more: Vec<String>)
    ensures
        string_views(final(v)@) == string_views(old(v)@) + string_views(more@),
{
    let mut more = more;
    let ghost m = string_views(more@);
    v.append(&mut more);
    assert(string_views(v@) =~= string_views(old(v)@) + m);
}

// ---------------------------------------------------------------------------
// Last index of a character
// ---------------------------------------------------------------------------

/// The position of the last `c` in `s`, or -1 when there is none.
pub open spec fn last_index_of(s: Seq<char>, c: char) -> int
    decreases s.len(),
{
    if s.len() == 0 {
        -1
    } else if s.last() == c {
        s.len() - 1
    } else {
        last_index_of(s.drop_last(), c)
    }
}

/// What `last_index_of` returns, characterised.
pub proof fn lemma_last_index_of(s: Seq<char>, c: char)
    ensures
        -1 <= last_index_of(s, c) < s.len(),
        last_index_of(s, c) >= 0 ==> s[last_index_of(s, c)] == c,
        forall|j: int| last_index_of(s, c) < j < s.len() ==> s[j] != c,
    decreases s.len(),
{
    if s.len() > 0 && s.last() != c {
        lemma_last_index_of(s.drop_last(), c);
        assert forall|j: int| last_index_of(s, c) < j < s.len() implies s[j] != c by {
            if j < s.len() - 1 {
                assert(s.drop_last()[j] == s[j]);
            }
        }
    }
}

/// The position of the last `c` in `s`, if any.
pub fn last_index(s: &[char], c: char) -> (r: Option<usize>)
    ensures
        match r {
            Some(i) => i as int == last_index_of(s@, c),
            None => last_index_of(s@, c) == -1,
        },
{
    let mut i: usize = s.len();
    assert(s@.take(s.len() as int) =~= s@);
    while i > 0
        invariant
            0 <= i <= s.len(),
            last_index_of(s@, c) == last_index_of(s@.take(i as int), c),
        decreases i,
    {
        assert(s@.take(i as int).drop_last() =~= s@.take(i - 1));
        if s[i - 1] == c {
            return Some(i - 1);
        }
        i -= 1;
    }
    None
}

} // verus!
