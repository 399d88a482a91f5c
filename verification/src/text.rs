//! Character-level text primitives.
//!
//! Every analyzer in this crate works line by line on sequences of `char`.
//! This module gives the mathematical meaning of the operations they use
//! (substring search, trimming, line splitting, decimal rendering) as spec
//! functions over `Seq<char>`, and executable versions proved against them.

use vstd::prelude::*;
use vstd::string::*;

verus! {

/// `String::push` appends one character to the end of the string.
pub assume_specification[ String::push ](s: &mut String, c: char)
    ensures
        final(s)@ == old(s)@.push(c),
;

/// The lower-case form of a text, as `str::to_lowercase` computes it from the
/// Unicode case mapping tables.
pub uninterp spec fn lowercased(s: Seq<char>) -> Seq<char>;

/// `str::to_lowercase` returns the lower-case equivalent of the string; the
/// result depends on the characters of the string alone.
pub assume_specification[ str::to_lowercase ](s: &str) -> (r: String)
    ensures
        r@ == lowercased(s@),
;

/// The characters of a string, in order.
pub fn chars_of(s: &str) -> (v: Vec<char>)
    ensures
        v@ == s@,
{
    let mut v: Vec<char> = Vec::new();
    for c in iter: s.chars()
        invariant
            iter.seq() == s@,
            v@ == s@.subrange(0, iter.index()),
    {
        v.push(c);
        assert(v@ =~= s@.subrange(0, iter.index() + 1));
    }
    assert(v@ =~= s@);
    v
}

/// A string made of the given characters.
pub fn string_of(v: &Vec<char>) -> (s: String)
    ensures
        s@ == v@,
{
    let mut s = String::new();
    let mut i: usize = 0;
    while i < v.len()
        invariant
            i <= v.len(),
            s@ == v@.subrange(0, i as int),
        decreases v.len() - i,
    {
        s.push(v[i]);
        i = i + 1;
        assert(s@ =~= v@.subrange(0, i as int));
    }
    assert(s@ =~= v@);
    s
}

/// A copy of the characters `from..to` of `v`.
pub fn slice_of(v: &Vec<char>, from: usize, to: usize) -> (r: Vec<char>)
    requires
        from <= to <= v.len(),
    ensures
        r@ == v@.subrange(from as int, to as int),
{
    let mut r: Vec<char> = Vec::new();
    let mut i: usize = from;
    while i < to
        invariant
            from <= i <= to <= v.len(),
            r@ == v@.subrange(from as int, i as int),
        decreases to - i,
    {
        r.push(v[i]);
        i = i + 1;
        assert(r@ =~= v@.subrange(from as int, i as int));
    }
    r
}

/// `pat` occurs in `s` starting at index `i`.
pub open spec fn matches_at(s: Seq<char>, pat: Seq<char>, i: int) -> bool {
    &&& 0 <= i
    &&& i + pat.len() <= s.len()
    &&& s.subrange(i, i + pat.len()) == pat
}

/// `pat` occurs somewhere in `s`.
pub open spec fn contains(s: Seq<char>, pat: Seq<char>) -> bool {
    exists|i: int| matches_at(s, pat, i)
}

/// `s` begins with `pat`.
pub open spec fn starts_with(s: Seq<char>, pat: Seq<char>) -> bool {
    matches_at(s, pat, 0)
}

/// `s` ends with `pat`.
pub open spec fn ends_with(s: Seq<char>, pat: Seq<char>) -> bool {
    matches_at(s, pat, s.len() - pat.len())
}

/// The index of the first occurrence of `pat` in `s` at or after `from`.
pub open spec fn find_from(s: Seq<char>, pat: Seq<char>, from: int) -> Option<int>
    decreases s.len() + 1 - from,
{
    if from < 0 || from + pat.len() > s.len() {
        None
    } else if matches_at(s, pat, from) {
        Some(from)
    } else {
        find_from(s, pat, from + 1)
    }
}

/// The index of the first occurrence of `pat` in `s`.
pub open spec fn find(s: Seq<char>, pat: Seq<char>) -> Option<int> {
    find_from(s, pat, 0)
}

/// An executable index seen as a mathematical one.
pub open spec fn as_index(r: Option<usize>) -> Option<int> {
    match r {
        Some(i) => Some(i as int),
        None => None,
    }
}

/// What `find_from` returns is the least matching index not below `from`.
pub proof fn lemma_find_from(s: Seq<char>, pat: Seq<char>, from: int)
    requires
        0 <= from,
    ensures
        match find_from(s, pat, from) {
            Some(i) => from <= i && matches_at(s, pat, i) && forall|j: int|
                from <= j < i ==> !matches_at(s, pat, j),
            None => forall|j: int| from <= j ==> !matches_at(s, pat, j),
        },
    decreases s.len() + 1 - from,
{
    if from + pat.len() > s.len() {
    } else if matches_at(s, pat, from) {
    } else {
        lemma_find_from(s, pat, from + 1);
    }
}

/// A text contains a pattern exactly when a search from the start finds it.
pub proof fn lemma_contains_find(s: Seq<char>, pat: Seq<char>)
    ensures
        contains(s, pat) <==> find(s, pat) is Some,
{
    lemma_find_from(s, pat, 0);
}

/// Whether `pat` occurs in `s` at index `i`.
pub fn is_match_at(s: &Vec<char>, pat: &Vec<char>, i: usize) -> (b: bool)
    ensures
        b == matches_at(s@, pat@, i as int),
{
    let n: usize = s.len();
    let m: usize = pat.len();
    if m > n || i > n - m {
        return false;
    }
    let mut k: usize = 0;
    while k < m
        invariant
            n == s.len(),
            m == pat.len(),
            i + m <= n,
            k <= m,
            s@.subrange(i as int, i + k) == pat@.subrange(0, k as int),
        decreases m - k,
    {
        if s[i + k] != pat[k] {
            assert(s@.subrange(i as int, i + m)[k as int] != pat@[k as int]);
            return false;
        }
        k = k + 1;
        assert(s@.subrange(i as int, i + k) =~= pat@.subrange(0, k as int));
    }
    assert(pat@.subrange(0, m as int) =~= pat@);
    true
}

/// The first index at or after `from` where `pat` occurs in `s`.
pub fn find_in(s: &Vec<char>, pat: &Vec<char>, from: usize) -> (r: Option<usize>)
    ensures
        as_index(r) == find_from(s@, pat@, from as int),
{
    let n: usize = s.len();
    let m: usize = pat.len();
    if m > n {
        return None;
    }
    let last: usize = n - m;
    if from > last {
        return None;
    }
    let mut i: usize = from;
    loop
        invariant
            n == s.len(),
            m == pat.len(),
            last == n - m,
            from <= i <= last,
            find_from(s@, pat@, from as int) == find_from(s@, pat@, i as int),
        decreases last - i,
    {
        if is_match_at(s, pat, i) {
            return Some(i);
        }
        if i == last {
            assert(find_from(s@, pat@, i + 1) is None);
            return None;
        }
        i = i + 1;
    }
}

/// Whether `pat` occurs in `s`.
pub fn holds(s: &Vec<char>, pat: &str) -> (b: bool)
    ensures
        b == contains(s@, pat@),
{
    let p = chars_of(pat);
    let r = find_in(s, &p, 0);
    proof {
        lemma_contains_find(s@, pat@);
    }
    r.is_some()
}

/// Whether `s` begins with `pat`.
pub fn begins_with(s: &Vec<char>, pat: &str) -> (b: bool)
    ensures
        b == starts_with(s@, pat@),
{
    let p = chars_of(pat);
    is_match_at(s, &p, 0)
}

/// Whether `s` ends with `pat`.
pub fn finishes_with(s: &Vec<char>, pat: &str) -> (b: bool)
    ensures
        b == ends_with(s@, pat@),
{
    let p = chars_of(pat);
    if p.len() > s.len() {
        return false;
    }
    is_match_at(s, &p, s.len() - p.len())
}

/// Whether `s` and `pat` hold the same characters.
pub fn same_text(s: &Vec<char>, pat: &str) -> (b: bool)
    ensures
        b == (s@ == pat@),
{
    let p = chars_of(pat);
    if p.len() != s.len() {
        return false;
    }
    let b = is_match_at(s, &p, 0);
    assert(s@.subrange(0, s@.len() as int) =~= s@);
    b
}

/// Whether two character vectors hold the same characters.
pub fn same_chars(a: &Vec<char>, b: &Vec<char>) -> (r: bool)
    ensures
        r == (a@ == b@),
{
    if a.len() != b.len() {
        return false;
    }
    let r = is_match_at(a, b, 0);
    assert(a@.subrange(0, a@.len() as int) =~= a@);
    r
}

/// White space in the sense of the Unicode property `White_Space`.
pub open spec fn is_white_space(c: char) -> bool {
    ||| '\u{9}' <= c <= '\u{d}'
    ||| c == ' '
    ||| c == '\u{85}'
    ||| c == '\u{a0}'
    ||| c == '\u{1680}'
    ||| '\u{2000}' <= c <= '\u{200a}'
    ||| c == '\u{2028}'
    ||| c == '\u{2029}'
    ||| c == '\u{202f}'
    ||| c == '\u{205f}'
    ||| c == '\u{3000}'
}

/// Whether `c` is white space.
pub fn white_space(c: char) -> (b: bool)
    ensures
        b == is_white_space(c),
{
    ('\u{9}' <= c && c <= '\u{d}') || c == ' ' || c == '\u{85}' || c == '\u{a0}' || c
        == '\u{1680}' || ('\u{2000}' <= c && c <= '\u{200a}') || c == '\u{2028}' || c
        == '\u{2029}' || c == '\u{202f}' || c == '\u{205f}' || c == '\u{3000}'
}

/// `s` without its leading white space.
pub open spec fn trim_start(s: Seq<char>) -> Seq<char>
    decreases s.len(),
{
    if s.len() > 0 && is_white_space(s[0]) {
        trim_start(s.drop_first())
    } else {
        s
    }
}

/// `s` without its trailing white space.
pub open spec fn trim_end(s: Seq<char>) -> Seq<char>
    decreases s.len(),
{
    if s.len() > 0 && is_white_space(s.last()) {
        trim_end(s.drop_last())
    } else {
        s
    }
}

/// `s` without leading and trailing white space.
pub open spec fn trim(s: Seq<char>) -> Seq<char> {
    trim_end(trim_start(s))
}

/// A copy of `s` without leading and trailing white space.
pub fn trimmed(s: &Vec<char>) -> (r: Vec<char>)
    ensures
        r@ == trim(s@),
{
    let n: usize = s.len();
    let mut a: usize = 0;
    assert(s@.subrange(0, n as int) =~= s@);
    while a < n && white_space(s[a])
        invariant
            n == s.len(),
            a <= n,
            trim_start(s@) == trim_start(s@.subrange(a as int, n as int)),
        decreases n - a,
    {
        assert(s@.subrange(a as int, n as int).drop_first() =~= s@.subrange(a + 1, n as int));
        a = a + 1;
    }
    assert(trim_start(s@) == s@.subrange(a as int, n as int));
    let mut b: usize = n;
    while b > a && white_space(s[b - 1])
        invariant
            n == s.len(),
            a <= b <= n,
            trim(s@) == trim_end(s@.subrange(a as int, b as int)),
        decreases b,
    {
        assert(s@.subrange(a as int, b as int).drop_last() =~= s@.subrange(a as int, b - 1));
        b = b - 1;
    }
    slice_of(s, a, b)
}

/// The index of the first `c` in `s` at or after `from`, or the length of `s`
/// where there is none.
pub open spec fn index_of_or_end(s: Seq<char>, c: char, from: int) -> int
    decreases s.len() - from,
{
    if from < 0 || from >= s.len() {
        s.len() as int
    } else if s[from] == c {
        from
    } else {
        index_of_or_end(s, c, from + 1)
    }
}

pub proof fn lemma_index_of_or_end(s: Seq<char>, c: char, from: int)
    requires
        0 <= from <= s.len(),
    ensures
        from <= index_of_or_end(s, c, from) <= s.len(),
        index_of_or_end(s, c, from) < s.len() ==> s[index_of_or_end(s, c, from)] == c,
        forall|j: int| from <= j < index_of_or_end(s, c, from) ==> s[j] != c,
    decreases s.len() - from,
{
    if from < s.len() && s[from] != c {
        lemma_index_of_or_end(s, c, from + 1);
    }
}

/// The first index at or after `from` that holds `c`, or the length of `s`.
pub fn scan_to(s: &Vec<char>, c: char, from: usize) -> (r: usize)
    requires
        from <= s.len(),
    ensures
        r == index_of_or_end(s@, c, from as int),
        from <= r <= s.len(),
{
    let mut i: usize = from;
    while i < s.len() && s[i] != c
        invariant
            from <= i <= s.len(),
            index_of_or_end(s@, c, from as int) == index_of_or_end(s@, c, i as int),
        decreases s.len() - i,
    {
        i = i + 1;
    }
    i
}

/// The line that starts at `from` and stops before `end`: the characters in
/// between, less a carriage return before the line feed that ends the line.
pub open spec fn line_between(s: Seq<char>, from: int, end: int) -> Seq<char> {
    if end < s.len() && from < end && s[end - 1] == '\r' {
        s.subrange(from, end - 1)
    } else {
        s.subrange(from, end)
    }
}

/// The lines of `s` from index `from` on.
pub open spec fn lines_from(s: Seq<char>, from: int) -> Seq<Seq<char>>
    decreases s.len() - from,
{
    if from < 0 || from >= s.len() {
        Seq::empty()
    } else {
        let end = index_of_or_end(s, '\n', from);
        if end >= s.len() {
            seq![line_between(s, from, s.len() as int)]
        } else if from <= end {
            seq![line_between(s, from, end)] + lines_from(s, end + 1)
        } else {
            Seq::empty()
        }
    }
}

/// The lines of a text. A line ends at a line feed, or at a carriage return
/// followed by a line feed; the last line need not be ended, and a text that
/// ends with a line ending has no empty line after it.
pub open spec fn lines(s: Seq<char>) -> Seq<Seq<char>> {
    lines_from(s, 0)
}

/// The text is made of whole lines: it is empty or ends with a line feed.
pub open spec fn whole_lines(s: Seq<char>) -> bool {
    s.len() == 0 || s.last() == '\n'
}

proof fn lemma_index_behind(x: Seq<char>, y: Seq<char>, c: char, i: int)
    requires
        0 <= i <= y.len(),
    ensures
        index_of_or_end(x + y, c, x.len() + i) == x.len() + index_of_or_end(y, c, i),
    decreases y.len() - i,
{
    if i < y.len() {
        assert((x + y)[x.len() + i] == y[i]);
        if y[i] != c {
            lemma_index_behind(x, y, c, i + 1);
        }
    }
}

proof fn lemma_index_in_front(x: Seq<char>, y: Seq<char>, c: char, from: int)
    requires
        0 <= from <= x.len(),
        index_of_or_end(x, c, from) < x.len(),
    ensures
        index_of_or_end(x + y, c, from) == index_of_or_end(x, c, from),
    decreases x.len() - from,
{
    if from < x.len() {
        assert((x + y)[from] == x[from]);
        if x[from] != c {
            lemma_index_in_front(x, y, c, from + 1);
        }
    }
}

proof fn lemma_lines_behind(x: Seq<char>, y: Seq<char>, i: int)
    requires
        0 <= i <= y.len(),
    ensures
        lines_from(x + y, x.len() + i) == lines_from(y, i),
    decreases y.len() - i,
{
    if i < y.len() {
        let s = x + y;
        let end = index_of_or_end(y, '\n', i);
        lemma_index_behind(x, y, '\n', i);
        lemma_index_of_or_end(y, '\n', i);
        if i < end {
            assert(s[x.len() + end - 1] == y[end - 1]);
        }
        if end >= y.len() {
            assert(line_between(s, x.len() + i, s.len() as int) =~= line_between(
                y,
                i,
                y.len() as int,
            ));
        } else {
            assert(line_between(s, x.len() + i, x.len() + end) =~= line_between(y, i, end));
            lemma_lines_behind(x, y, end + 1);
        }
    }
}

proof fn lemma_lines_in_front(x: Seq<char>, y: Seq<char>, from: int)
    requires
        whole_lines(x),
        0 <= from <= x.len(),
    ensures
        lines_from(x + y, from) == lines_from(x, from) + lines(y),
    decreases x.len() - from,
{
    let s = x + y;
    if from == x.len() {
        lemma_lines_behind(x, y, 0);
        assert(Seq::<Seq<char>>::empty() + lines(y) =~= lines(y));
    } else {
        let end = index_of_or_end(x, '\n', from);
        lemma_index_of_or_end(x, '\n', from);
        assert(end < x.len()) by {
            if end >= x.len() {
                assert(x[x.len() - 1] != '\n');
            }
        }
        lemma_index_in_front(x, y, '\n', from);
        if from < end {
            assert(s[end - 1] == x[end - 1]);
        }
        assert(line_between(s, from, end) =~= line_between(x, from, end));
        lemma_lines_in_front(x, y, end + 1);
        assert(seq![line_between(x, from, end)] + (lines_from(x, end + 1) + lines(y)) =~= (
        seq![line_between(x, from, end)] + lines_from(x, end + 1)) + lines(y));
    }
}

/// The lines of two texts joined are the lines of the first followed by
/// the lines of the second, where the first is made of whole lines.
pub proof fn lemma_lines_of_joined(x: Seq<char>, y: Seq<char>)
    requires
        whole_lines(x),
    ensures
        lines(x + y) == lines(x) + lines(y),
{
    lemma_lines_in_front(x, y, 0);
}

/// `l` without a carriage return at its end.
pub open spec fn without_carriage_return(l: Seq<char>) -> Seq<char> {
    if l.len() > 0 && l.last() == '\r' {
        l.drop_last()
    } else {
        l
    }
}

/// A text without a line feed is one line once a line feed ends it: the
/// text itself, less a carriage return at its end.
pub proof fn lemma_one_line(l: Seq<char>)
    requires
        forall|i: int| 0 <= i < l.len() ==> #[trigger] l[i] != '\n',
    ensures
        lines(l.push('\n')) == seq![without_carriage_return(l)],
        whole_lines(l.push('\n')),
{
    let s = l.push('\n');
    let end = index_of_or_end(s, '\n', 0);
    lemma_index_of_or_end(s, '\n', 0);
    assert(end == l.len()) by {
        if end < l.len() {
            assert(s[end] == l[end]);
        }
        if end > l.len() {
            assert(s[l.len() as int] == '\n');
        }
    }
    if l.len() > 0 {
        assert(s[end - 1] == l.last());
    }
    assert(line_between(s, 0, end) =~= without_carriage_return(l));
    assert(lines_from(s, end + 1) =~= Seq::<Seq<char>>::empty());
    assert(seq![without_carriage_return(l)] + Seq::<Seq<char>>::empty() =~= seq![
        without_carriage_return(l),
    ]);
}

/// What a part of a text contains, the text contains.
pub proof fn lemma_contains_in_part(s: Seq<char>, a: int, b: int, pat: Seq<char>)
    requires
        0 <= a <= b <= s.len(),
        contains(s.subrange(a, b), pat),
    ensures
        contains(s, pat),
{
    let part = s.subrange(a, b);
    let i = choose|i: int| matches_at(part, pat, i);
    assert(s.subrange(a + i, a + i + pat.len()) =~= part.subrange(i, i + pat.len()));
    assert(matches_at(s, pat, a + i));
}

proof fn lemma_contains_in_trim_start(l: Seq<char>, pat: Seq<char>)
    requires
        contains(trim_start(l), pat),
    ensures
        contains(l, pat),
    decreases l.len(),
{
    if l.len() > 0 && is_white_space(l[0]) {
        lemma_contains_in_trim_start(l.drop_first(), pat);
        assert(l.drop_first() =~= l.subrange(1, l.len() as int));
        lemma_contains_in_part(l, 1, l.len() as int, pat);
    }
}

proof fn lemma_contains_in_trim_end(l: Seq<char>, pat: Seq<char>)
    requires
        contains(trim_end(l), pat),
    ensures
        contains(l, pat),
    decreases l.len(),
{
    if l.len() > 0 && is_white_space(l.last()) {
        lemma_contains_in_trim_end(l.drop_last(), pat);
        assert(l.drop_last() =~= l.subrange(0, l.len() - 1));
        lemma_contains_in_part(l, 0, l.len() - 1, pat);
    }
}

/// What a trimmed text contains, the text contains.
pub proof fn lemma_contains_in_trim(l: Seq<char>, pat: Seq<char>)
    requires
        contains(trim(l), pat),
    ensures
        contains(l, pat),
{
    lemma_contains_in_trim_end(trim_start(l), pat);
    lemma_contains_in_trim_start(l, pat);
}

proof fn lemma_contains_in_lines_from(s: Seq<char>, from: int, i: int, pat: Seq<char>)
    requires
        0 <= from <= s.len(),
        0 <= i < lines_from(s, from).len(),
        contains(lines_from(s, from)[i], pat),
    ensures
        contains(s, pat),
    decreases s.len() - from,
{
    if from < s.len() {
        let end = index_of_or_end(s, '\n', from);
        lemma_index_of_or_end(s, '\n', from);
        let stop = if end >= s.len() {
            s.len() as int
        } else {
            end
        };
        let line = line_between(s, from, stop);
        if i == 0 {
            if stop < s.len() && from < stop && s[stop - 1] == '\r' {
                lemma_contains_in_part(s, from, stop - 1, pat);
            } else {
                lemma_contains_in_part(s, from, stop, pat);
            }
        } else {
            let rest = lines_from(s, end + 1);
            assert(lines_from(s, from)[i] == rest[i - 1]);
            lemma_contains_in_lines_from(s, end + 1, i - 1, pat);
        }
    }
}

/// What a line of a text contains, the text contains.
pub proof fn lemma_contains_in_line(s: Seq<char>, i: int, pat: Seq<char>)
    requires
        0 <= i < lines(s).len(),
        contains(lines(s)[i], pat),
    ensures
        contains(s, pat),
{
    lemma_contains_in_lines_from(s, 0, i, pat);
}

/// The character sequences held by a vector of lines.
pub open spec fn texts(v: Seq<Vec<char>>) -> Seq<Seq<char>> {
    v.map_values(|l: Vec<char>| l@)
}

/// The lines of `s`.
pub fn split_lines(s: &Vec<char>) -> (r: Vec<Vec<char>>)
    ensures
        texts(r@) == lines(s@),
{
    let n: usize = s.len();
    let mut out: Vec<Vec<char>> = Vec::new();
    let mut pos: usize = 0;
    assert(texts(out@) =~= Seq::<Seq<char>>::empty());
    while pos < n
        invariant
            n == s.len(),
            pos <= n,
            texts(out@) + lines_from(s@, pos as int) == lines(s@),
        decreases n - pos,
    {
        let end: usize = scan_to(s, '\n', pos);
        let stop: usize = if end < n && pos < end && s[end - 1] == '\r' {
            end - 1
        } else {
            end
        };
        let line = slice_of(s, pos, stop);
        let ghost before = texts(out@);
        out.push(line);
        assert(texts(out@) =~= before.push(line_between(s@, pos as int, end as int)));
        assert(before.push(line_between(s@, pos as int, end as int)) + lines_from(
            s@,
            end + 1,
        ) =~= before + lines_from(s@, pos as int));
        if end < n {
            pos = end + 1;
        } else {
            pos = n;
        }
    }
    assert(texts(out@) + Seq::<Seq<char>>::empty() =~= texts(out@));
    out
}

/// The pieces of `s` between occurrences of `sep`, from index `from` on.
pub open spec fn split_from(s: Seq<char>, sep: char, from: int) -> Seq<Seq<char>>
    decreases s.len() - from,
{
    if from < 0 || from > s.len() {
        Seq::empty()
    } else {
        let end = index_of_or_end(s, sep, from);
        if end >= s.len() {
            seq![s.subrange(from, s.len() as int)]
        } else if from <= end {
            seq![s.subrange(from, end)] + split_from(s, sep, end + 1)
        } else {
            Seq::empty()
        }
    }
}

/// The pieces of `s` between occurrences of `sep`. There is one piece more
/// than there are separators, so the empty text has one empty piece.
pub open spec fn split(s: Seq<char>, sep: char) -> Seq<Seq<char>> {
    split_from(s, sep, 0)
}

/// The pieces of `s` between occurrences of `sep`.
pub fn split_on(s: &Vec<char>, sep: char) -> (r: Vec<Vec<char>>)
    ensures
        texts(r@) == split(s@, sep),
{
    let n: usize = s.len();
    let mut out: Vec<Vec<char>> = Vec::new();
    let mut pos: usize = 0;
    assert(texts(out@) =~= Seq::<Seq<char>>::empty());
    loop
        invariant
            n == s.len(),
            pos <= n,
            texts(out@) + split_from(s@, sep, pos as int) == split(s@, sep),
        decreases n - pos,
    {
        let end: usize = scan_to(s, sep, pos);
        let piece = slice_of(s, pos, end);
        let ghost before = texts(out@);
        out.push(piece);
        assert(texts(out@) =~= before.push(s@.subrange(pos as int, end as int)));
        if end >= n {
            assert(texts(out@) =~= before + split_from(s@, sep, pos as int));
            return out;
        }
        assert(before.push(s@.subrange(pos as int, end as int)) + split_from(s@, sep, end + 1)
            =~= before + split_from(s@, sep, pos as int));
        pos = end + 1;
    }
}

/// The decimal digit for `d`.
pub open spec fn digit(d: int) -> char {
    if d == 0 {
        '0'
    } else if d == 1 {
        '1'
    } else if d == 2 {
        '2'
    } else if d == 3 {
        '3'
    } else if d == 4 {
        '4'
    } else if d == 5 {
        '5'
    } else if d == 6 {
        '6'
    } else if d == 7 {
        '7'
    } else if d == 8 {
        '8'
    } else {
        '9'
    }
}

/// The decimal numeral of `n`, without leading zeros.
pub open spec fn decimal(n: nat) -> Seq<char>
    decreases n,
{
    if n < 10 {
        seq![digit(n as int)]
    } else {
        decimal(n / 10).push(digit((n % 10) as int))
    }
}

fn digit_char(d: u64) -> (c: char)
    requires
        d < 10,
    ensures
        c == digit(d as int),
{
    if d == 0 {
        '0'
    } else if d == 1 {
        '1'
    } else if d == 2 {
        '2'
    } else if d == 3 {
        '3'
    } else if d == 4 {
        '4'
    } else if d == 5 {
        '5'
    } else if d == 6 {
        '6'
    } else if d == 7 {
        '7'
    } else if d == 8 {
        '8'
    } else {
        '9'
    }
}

/// Appends the decimal numeral of `n` to `out`.
pub fn push_decimal(out: &mut String, n: u64)
    ensures
        final(out)@ == old(out)@ + decimal(n as nat),
    decreases n,
{
    if n < 10 {
        out.push(digit_char(n));
        assert(out@ =~= old(out)@ + decimal(n as nat));
    } else {
        push_decimal(out, n / 10);
        out.push(digit_char(n % 10));
        assert(out@ =~= old(out)@ + decimal(n as nat));
    }
}

/// Appends the characters of `piece` to `out`.
pub fn push_chars(out: &mut String, piece: &Vec<char>)
    ensures
        final(out)@ == old(out)@ + piece@,
{
    let mut i: usize = 0;
    assert(out@ =~= old(out)@ + piece@.subrange(0, 0));
    while i < piece.len()
        invariant
            i <= piece.len(),
            out@ == old(out)@ + piece@.subrange(0, i as int),
        decreases piece.len() - i,
    {
        out.push(piece[i]);
        i = i + 1;
        assert(out@ =~= old(out)@ + piece@.subrange(0, i as int));
    }
    assert(piece@.subrange(0, piece@.len() as int) =~= piece@);
}

/// The characters of an optional text.
pub open spec fn opt_chars(o: Option<&str>) -> Option<Seq<char>> {
    match o {
        Some(s) => Some(s@),
        None => None,
    }
}

/// The characters of an optional string.
pub open spec fn opt_text(o: Option<String>) -> Option<Seq<char>> {
    match o {
        Some(s) => Some(s@),
        None => None,
    }
}

} // verus!
