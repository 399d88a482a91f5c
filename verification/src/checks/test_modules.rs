//! What a test module does to the function count: nothing. A file with a
//! test module in it has as many counted functions as the same file
//! without the module.

use vstd::prelude::*;
use crate::checks::function_count::{
    after_line, after_marker, counted, counts, function_count, scope_before, state_before,
    test_marker, FnScan,
};
use crate::scanner::{
    lemma_open_scope_depth, lemma_scope_stays_open, raw_open, scan_braces, stays_above, Scope,
};
use crate::text::{
    contains, index_of_or_end, lemma_contains_in_line, lemma_contains_in_trim,
    lemma_index_of_or_end, lemma_lines_of_joined, lemma_one_line, lines, matches_at, trim,
    whole_lines, without_carriage_return,
};

verus! {

/// The state after the first `n` lines, scanned from state `st`.
pub open spec fn run(st: FnScan, ls: Seq<Seq<char>>, n: int) -> FnScan
    decreases n,
{
    if n <= 0 || n > ls.len() {
        st
    } else {
        after_line(run(st, ls, n - 1), ls[n - 1])
    }
}

/// The number of lines among the first `n` that count as a function
/// definition, scanned from state `st`.
pub open spec fn tally(st: FnScan, ls: Seq<Seq<char>>, n: int) -> nat
    decreases n,
{
    if n <= 0 || n > ls.len() {
        0
    } else {
        tally(st, ls, n - 1) + if counts(run(st, ls, n - 1), ls[n - 1]) {
            1nat
        } else {
            0nat
        }
    }
}

/// A scan from the start of a file is a scan from the starting state.
pub proof fn lemma_scan_from_start(ls: Seq<Seq<char>>, n: int)
    requires
        0 <= n <= ls.len(),
    ensures
        state_before(ls, n) == run(FnScan::start(), ls, n),
        counted(ls, n) == tally(FnScan::start(), ls, n),
    decreases n,
{
    if n > 0 {
        lemma_scan_from_start(ls, n - 1);
    }
}

/// Lines that follow do not change the scan of the lines before them.
pub proof fn lemma_scan_of_front(st: FnScan, front: Seq<Seq<char>>, back: Seq<Seq<char>>, n: int)
    requires
        0 <= n <= front.len(),
    ensures
        run(st, front + back, n) == run(st, front, n),
        tally(st, front + back, n) == tally(st, front, n),
    decreases n,
{
    if n > 0 {
        lemma_scan_of_front(st, front, back, n - 1);
        assert((front + back)[n - 1] == front[n - 1]);
    }
}

/// The scan of joined lines is the scan of the front, followed by the scan
/// of the back from the state that the front leaves.
pub proof fn lemma_scan_of_joined(st: FnScan, front: Seq<Seq<char>>, back: Seq<Seq<char>>, j: int)
    requires
        0 <= j <= back.len(),
    ensures
        run(st, front + back, front.len() + j) == run(
            run(st, front, front.len() as int),
            back,
            j,
        ),
        tally(st, front + back, front.len() + j) == tally(st, front, front.len() as int) + tally(
            run(st, front, front.len() as int),
            back,
            j,
        ),
    decreases j,
{
    if j > 0 {
        lemma_scan_of_joined(st, front, back, j - 1);
        assert((front + back)[front.len() + j - 1] == back[j - 1]);
    } else {
        lemma_scan_of_front(st, front, back, front.len() as int);
    }
}

/// The line opens no raw string and holds no marker of a test module.
pub open spec fn plain(line: Seq<char>) -> bool {
    !contains(trim(line), raw_open()) && !contains(trim(line), test_marker())
}

/// Every line is plain.
pub open spec fn all_plain(ls: Seq<Seq<char>>) -> bool {
    forall|i: int| 0 <= i < ls.len() ==> plain(#[trigger] ls[i])
}

/// The state is outside raw strings and test modules.
pub open spec fn outside(st: FnScan) -> bool {
    !st.inside_raw && !st.in_test
}

/// Outside test modules the depth at which the last one was entered plays
/// no part: two scans of plain lines that start outside, at the same
/// depth, stay outside, keep the same depth and count the same lines.
pub proof fn lemma_entry_depth_is_forgotten(a: FnScan, b: FnScan, ls: Seq<Seq<char>>, n: int)
    requires
        outside(a),
        outside(b),
        a.depth == b.depth,
        all_plain(ls),
        0 <= n <= ls.len(),
    ensures
        outside(run(a, ls, n)),
        outside(run(b, ls, n)),
        run(a, ls, n).depth == run(b, ls, n).depth,
        tally(a, ls, n) == tally(b, ls, n),
    decreases n,
{
    if n > 0 {
        lemma_entry_depth_is_forgotten(a, b, ls, n - 1);
        let line = ls[n - 1];
        assert(plain(line));
        let x = run(a, ls, n - 1);
        let y = run(b, ls, n - 1);
        assert(scope_before(after_marker(x, trim(line))) == scope_before(
            after_marker(y, trim(line)),
        ));
        lemma_open_scope_depth(scope_before(after_marker(x, trim(line))), line);
    }
}

/// The brace depth after the first `n` lines, counted from zero.
pub open spec fn level(ls: Seq<Seq<char>>, n: int) -> int
    decreases n,
{
    if n <= 0 || n > ls.len() {
        0
    } else {
        scan_braces(Scope { depth: level(ls, n - 1), entered_at: None }, ls[n - 1]).depth
    }
}

/// The braces of the lines are balanced: no closing brace closes more
/// than was opened before it, and in the end everything opened is closed.
pub open spec fn balanced(ls: Seq<Seq<char>>) -> bool {
    &&& level(ls, ls.len() as int) == 0
    &&& forall|j: int|
        0 <= j < ls.len() ==> stays_above(
            Scope { depth: #[trigger] level(ls, j), entered_at: None },
            ls[j],
            -1,
        )
}

/// Raising the depth at the start of a line raises it by as much at the
/// end.
pub proof fn lemma_depth_shift(s: Scope, t: Scope, line: Seq<char>)
    ensures
        scan_braces(t, line).depth - t.depth == scan_braces(s, line).depth - s.depth,
    decreases line.len(),
{
    if line.len() > 0 {
        lemma_depth_shift(s, t, line.drop_last());
    }
}

/// Plain lines with balanced braces inside a test module stay inside it,
/// and none of them counts.
#[verifier::rlimit(50)]
pub proof fn lemma_inside_stays_inside(st: FnScan, ls: Seq<Seq<char>>, n: int)
    requires
        !st.inside_raw,
        st.in_test,
        st.entry_depth < st.depth,
        all_plain(ls),
        balanced(ls),
        0 <= n <= ls.len(),
    ensures
        run(st, ls, n) == (FnScan {
            inside_raw: false,
            in_test: true,
            depth: st.depth + level(ls, n),
            entry_depth: st.entry_depth,
        }),
        tally(st, ls, n) == 0,
    decreases n,
{
    if n > 0 {
        lemma_inside_stays_inside(st, ls, n - 1);
        let line = ls[n - 1];
        let before = run(st, ls, n - 1);
        assert(plain(line));
        let d = st.depth - 1;
        let counted_from_zero = Scope { depth: level(ls, n - 1), entered_at: None };
        let marked = Scope { depth: before.depth, entered_at: Some(d) };
        assert(stays_above(counted_from_zero, line, -1));
        assert forall|k: int| 0 <= k < line.len() && line[k] == '}' implies (
        #[trigger] scan_braces(marked, line.subrange(0, k + 1))).depth > d by {
            lemma_depth_shift(counted_from_zero, marked, line.subrange(0, k + 1));
            assert(scan_braces(counted_from_zero, line.subrange(0, k + 1)).depth > -1);
        }
        let scope = scope_before(after_marker(before, trim(line)));
        lemma_scope_stays_open(scope, line, st.entry_depth, d);
        lemma_depth_shift(counted_from_zero, scope, line);
    }
}

/// The line holds no brace.
pub open spec fn braceless(line: Seq<char>) -> bool {
    forall|k: int| 0 <= k < line.len() ==> #[trigger] line[k] != '{' && line[k] != '}'
}

/// A line without braces changes no scope.
pub proof fn lemma_braceless(s: Scope, line: Seq<char>)
    requires
        braceless(line),
    ensures
        scan_braces(s, line) == s,
    decreases line.len(),
{
    if line.len() > 0 {
        assert(braceless(line.drop_last())) by {
            assert forall|k: int| 0 <= k < line.drop_last().len() implies #[trigger] line.drop_last()[k]
                != '{' && line.drop_last()[k] != '}' by {
                assert(line.drop_last()[k] == line[k]);
            }
        }
        lemma_braceless(s, line.drop_last());
        assert(line.last() == line[line.len() - 1]);
    }
}

/// The line opens one brace and closes none: its last character is an
/// opening brace and no other is a brace.
pub open spec fn opens_one(line: Seq<char>) -> bool {
    line.len() > 0 && line.last() == '{' && braceless(line.drop_last())
}

/// The line closes one brace and opens none: its last character is a
/// closing brace and no other is a brace.
pub open spec fn closes_one(line: Seq<char>) -> bool {
    line.len() > 0 && line.last() == '}' && braceless(line.drop_last())
}

/// A file with a test module in it has as many counted functions as the
/// same file without the module, whatever the depth at which the module
/// stands and however deep the nesting inside it goes. The module is a
/// line with the marker, a line that opens it, a body of plain lines with
/// balanced braces, and a line that closes it; the lines before and after
/// it are plain.
#[verifier::rlimit(50)]
pub proof fn lemma_test_module_adds_nothing(
    above: Seq<Seq<char>>,
    marker: Seq<char>,
    opening: Seq<char>,
    body: Seq<Seq<char>>,
    closing: Seq<char>,
    below: Seq<Seq<char>>,
)
    requires
        all_plain(above),
        all_plain(body),
        all_plain(below),
        balanced(body),
        !contains(trim(marker), raw_open()),
        contains(trim(marker), test_marker()),
        braceless(marker),
        plain(opening),
        opens_one(opening),
        plain(closing),
        closes_one(closing),
    ensures
        ({
            let with = above + seq![marker, opening] + body + seq![closing] + below;
            let without = above + below;
            counted(with, with.len() as int) == counted(without, without.len() as int)
        }),
{
    let start = FnScan::start();
    let head = seq![marker, opening];
    let tail = seq![closing];
    let with = above + head + body + tail + below;
    let without = above + below;
    let a = above.len() as int;
    // The lines above the module.
    let s0 = run(start, above, a);
    lemma_entry_depth_is_forgotten(start, start, above, a);
    // The marker and the opening line.
    assert(outside(s0));
    assert(head[0] == marker && head[1] == opening);
    assert(run(s0, head, 0) == s0);
    let entered = after_marker(s0, trim(marker));
    assert(entered == FnScan { in_test: true, entry_depth: s0.depth, ..s0 });
    lemma_braceless(scope_before(entered), marker);
    let s1 = run(s0, head, 1);
    assert(s1 == after_line(s0, marker));
    assert(s1 == entered);
    assert(!counts(s0, marker));
    assert(tally(s0, head, 0) == 0);
    assert(tally(s0, head, 1) == 0);
    assert(after_marker(s1, trim(opening)) == s1);
    lemma_braceless(scope_before(s1), opening.drop_last());
    let s2 = run(s0, head, 2);
    assert(s2 == after_line(s1, opening));
    assert(scan_braces(scope_before(s1), opening) == Scope {
        depth: s1.depth + 1,
        entered_at: Some(s1.entry_depth),
    });
    assert(s2 == FnScan { depth: s0.depth + 1, ..s1 });
    assert(!counts(s1, opening));
    assert(tally(s0, head, 2) == 0);
    // The body.
    let b = body.len() as int;
    lemma_inside_stays_inside(s2, body, b);
    let s3 = run(s2, body, b);
    assert(s3 == s2);
    // The closing line.
    assert(tail[0] == closing);
    assert(run(s3, tail, 0) == s3);
    assert(after_marker(s3, trim(closing)) == s3);
    lemma_braceless(scope_before(s3), closing.drop_last());
    let s4 = run(s3, tail, 1);
    assert(s4 == after_line(s3, closing));
    assert(scan_braces(scope_before(s3), closing) == Scope {
        depth: s3.depth - 1,
        entered_at: None,
    });
    assert(s4 == FnScan { in_test: false, depth: s0.depth, ..s3 });
    assert(!counts(s3, closing));
    assert(tally(s3, tail, 0) == 0);
    assert(tally(s3, tail, 1) == 0);
    // The lines below the module.
    let w = below.len() as int;
    lemma_entry_depth_is_forgotten(s0, s4, below, w);
    // Joined.
    lemma_scan_of_joined(start, above, head, 2);
    lemma_scan_of_joined(start, above + head, body, b);
    lemma_scan_of_joined(start, above + head + body, tail, 1);
    lemma_scan_of_joined(start, above + head + body + tail, below, w);
    lemma_scan_of_joined(start, above, below, w);
    lemma_scan_from_start(with, with.len() as int);
    lemma_scan_from_start(without, without.len() as int);
}

/// The line that marks a test module.
pub open spec fn marker_line() -> Seq<char> {
    "#[cfg(test)]"@
}

/// The line that opens a test module.
pub open spec fn opening_line() -> Seq<char> {
    "mod tests {"@
}

/// The line that closes a test module.
pub open spec fn closing_line() -> Seq<char> {
    "}"@
}

/// The text of a test module around the lines of `body`.
pub open spec fn test_module(body: Seq<char>) -> Seq<char> {
    "#[cfg(test)]\nmod tests {\n"@ + body + "}\n"@
}

proof fn lemma_no_raw_string_without_r(l: Seq<char>)
    requires
        forall|k: int| 0 <= k < l.len() ==> #[trigger] l[k] != 'r',
    ensures
        !contains(l, raw_open()),
{
    reveal_strlit("r#\"");
    assert forall|i: int| !matches_at(l, raw_open(), i) by {
        if matches_at(l, raw_open(), i) {
            assert(l.subrange(i, i + raw_open().len())[0] == raw_open()[0]);
            assert(l[i] == 'r');
        }
    }
}

proof fn lemma_no_marker_without_hash(l: Seq<char>)
    requires
        forall|k: int| 0 <= k < l.len() ==> #[trigger] l[k] != '#',
    ensures
        !contains(l, test_marker()),
{
    reveal_strlit("#[cfg(test)]");
    assert forall|i: int| !matches_at(l, test_marker(), i) by {
        if matches_at(l, test_marker(), i) {
            assert(l.subrange(i, i + test_marker().len())[0] == test_marker()[0]);
            assert(l[i] == '#');
        }
    }
}

proof fn lemma_marker_line()
    ensures
        trim(marker_line()) == marker_line(),
        !contains(marker_line(), raw_open()),
        contains(marker_line(), test_marker()),
        braceless(marker_line()),
        lines(marker_line().push('\n')) == seq![marker_line()],
        whole_lines(marker_line().push('\n')),
{
    reveal_strlit("#[cfg(test)]");
    let l = marker_line();
    lemma_no_raw_string_without_r(l);
    assert(l.subrange(0, l.len() as int) =~= l);
    assert(matches_at(l, test_marker(), 0));
    lemma_one_line(l);
    assert(without_carriage_return(l) == l);
}

proof fn lemma_opening_line()
    ensures
        plain(opening_line()),
        opens_one(opening_line()),
        lines(opening_line().push('\n')) == seq![opening_line()],
        whole_lines(opening_line().push('\n')),
{
    reveal_strlit("mod tests {");
    let l = opening_line();
    assert(trim(l) == l);
    lemma_no_raw_string_without_r(l);
    lemma_no_marker_without_hash(l);
    assert forall|k: int| 0 <= k < l.drop_last().len() implies #[trigger] l.drop_last()[k] != '{'
        && l.drop_last()[k] != '}' by {
        assert(l.drop_last()[k] == l[k]);
    }
    lemma_one_line(l);
    assert(without_carriage_return(l) == l);
}

proof fn lemma_closing_line()
    ensures
        plain(closing_line()),
        closes_one(closing_line()),
        lines(closing_line().push('\n')) == seq![closing_line()],
        whole_lines(closing_line().push('\n')),
{
    reveal_strlit("}");
    let l = closing_line();
    assert(trim(l) == l);
    lemma_no_raw_string_without_r(l);
    lemma_no_marker_without_hash(l);
    lemma_one_line(l);
    assert(without_carriage_return(l) == l);
}

proof fn lemma_module_text(body: Seq<char>)
    ensures
        test_module(body) == marker_line().push('\n') + opening_line().push('\n') + body
            + closing_line().push('\n'),
{
    reveal_strlit("#[cfg(test)]\nmod tests {\n");
    reveal_strlit("#[cfg(test)]");
    reveal_strlit("mod tests {");
    reveal_strlit("}\n");
    reveal_strlit("}");
    assert("#[cfg(test)]\nmod tests {\n"@ =~= marker_line().push('\n') + opening_line().push('\n'));
    assert("}\n"@ =~= closing_line().push('\n'));
}

proof fn lemma_whole_lines_joined(x: Seq<char>, y: Seq<char>)
    requires
        whole_lines(x),
        whole_lines(y),
    ensures
        lines(x + y) == lines(x) + lines(y),
        whole_lines(x + y),
{
    lemma_lines_of_joined(x, y);
    if y.len() == 0 {
        assert(x + y =~= x);
    } else {
        assert((x + y).last() == y.last());
    }
}

proof fn lemma_lines_around(m: Seq<char>, o: Seq<char>, c: Seq<char>, above: Seq<char>, body: Seq<
    char,
>, below: Seq<char>)
    requires
        whole_lines(above),
        whole_lines(m),
        whole_lines(o),
        whole_lines(body),
        whole_lines(c),
    ensures
        lines(above + (m + o + body + c) + below) == lines(above) + lines(m) + lines(o) + lines(
            body,
        ) + lines(c) + lines(below),
{
    let t1 = above + m;
    let t2 = t1 + o;
    let t3 = t2 + body;
    let t4 = t3 + c;
    lemma_whole_lines_joined(above, m);
    lemma_whole_lines_joined(t1, o);
    lemma_whole_lines_joined(t2, body);
    lemma_whole_lines_joined(t3, c);
    lemma_lines_of_joined(t4, below);
    assert(above + (m + o + body + c) + below == t4 + below) by {
        assert(above + (m + o + body + c) =~= t4);
    }
}

#[verifier::rlimit(50)]
proof fn lemma_lines_with_module(above: Seq<char>, body: Seq<char>, below: Seq<char>)
    requires
        whole_lines(above),
        whole_lines(body),
    ensures
        lines(above + test_module(body) + below) == lines(above) + seq![
            marker_line(),
            opening_line(),
        ] + lines(body) + seq![closing_line()] + lines(below),
{
    let m = marker_line().push('\n');
    let o = opening_line().push('\n');
    let c = closing_line().push('\n');
    assert(lines(m) == seq![marker_line()] && whole_lines(m)) by {
        lemma_marker_line();
    }
    assert(lines(o) == seq![opening_line()] && whole_lines(o)) by {
        lemma_opening_line();
    }
    assert(lines(c) == seq![closing_line()] && whole_lines(c)) by {
        lemma_closing_line();
    }
    assert(test_module(body) == m + o + body + c) by {
        lemma_module_text(body);
    }
    lemma_lines_around(m, o, c, above, body, below);
    assert(seq![marker_line()] + seq![opening_line()] =~= seq![marker_line(), opening_line()]);
    assert(lines(above) + seq![marker_line()] + seq![opening_line()] =~= lines(above) + seq![
        marker_line(),
        opening_line(),
    ]);
}

/// The text opens no raw string and holds no marker of a test module.
pub open spec fn quiet(x: Seq<char>) -> bool {
    !contains(x, raw_open()) && !contains(x, test_marker())
}

/// The lines of a quiet text are plain.
pub proof fn lemma_quiet_lines(x: Seq<char>)
    requires
        quiet(x),
    ensures
        all_plain(lines(x)),
{
    assert forall|i: int| 0 <= i < lines(x).len() implies plain(#[trigger] lines(x)[i]) by {
        let l = lines(x)[i];
        if contains(trim(l), raw_open()) {
            lemma_contains_in_trim(l, raw_open());
            lemma_contains_in_line(x, i, raw_open());
        }
        if contains(trim(l), test_marker()) {
            lemma_contains_in_trim(l, test_marker());
            lemma_contains_in_line(x, i, test_marker());
        }
    }
}

/// The scope state of a text that is read from depth zero.
pub open spec fn ground() -> Scope {
    Scope { depth: 0, entered_at: None }
}

/// The braces of the text are balanced: no closing brace closes more than
/// was opened before it, and in the end everything opened is closed.
pub open spec fn braces_balanced(x: Seq<char>) -> bool {
    scan_braces(ground(), x).depth == 0 && stays_above(ground(), x, -1)
}

/// Reading two texts one after the other is reading them joined.
pub proof fn lemma_scan_joined(s: Scope, u: Seq<char>, v: Seq<char>)
    ensures
        scan_braces(s, u + v) == scan_braces(scan_braces(s, u), v),
    decreases v.len(),
{
    if v.len() > 0 {
        assert((u + v).drop_last() =~= u + v.drop_last());
        lemma_scan_joined(s, u, v.drop_last());
    } else {
        assert(u + v =~= u);
    }
}

proof fn lemma_level_of_front(front: Seq<Seq<char>>, back: Seq<Seq<char>>, n: int)
    requires
        0 <= n <= front.len(),
    ensures
        level(front + back, n) == level(front, n),
    decreases n,
{
    if n > 0 {
        lemma_level_of_front(front, back, n - 1);
        assert((front + back)[n - 1] == front[n - 1]);
    }
}

/// What is known of the lines of the first `p` characters of a text while
/// its lines are walked: their level is the depth of the text read so
/// far, and no closing brace among them closes more than was opened.
spec fn walked(x: Seq<char>, p: int) -> bool {
    let front = lines(x.subrange(0, p));
    &&& level(front, front.len() as int) == scan_braces(ground(), x.subrange(0, p)).depth
    &&& forall|j: int|
        0 <= j < front.len() ==> stays_above(
            Scope { depth: #[trigger] level(front, j), entered_at: None },
            front[j],
            -1,
        )
}

#[verifier::rlimit(50)]
proof fn lemma_walk_one_line(x: Seq<char>, p: int, end: int)
    requires
        braces_balanced(x),
        0 <= p <= end < x.len(),
        whole_lines(x.subrange(0, p)),
        end == index_of_or_end(x, '\n', p),
        walked(x, p),
    ensures
        walked(x, end + 1),
        whole_lines(x.subrange(0, end + 1)),
{
    lemma_index_of_or_end(x, '\n', p);
    let done = x.subrange(0, p);
    let l = x.subrange(p, end);
    let line = without_carriage_return(l);
    let next = x.subrange(0, end + 1);
    assert(next =~= done + l.push('\n'));
    lemma_one_line(l);
    lemma_lines_of_joined(done, l.push('\n'));
    let front = lines(done);
    let n = front.len() as int;
    let all = lines(next);
    assert(all =~= front + seq![line]);
    assert(all[n] == line);
    // The depth at the start of the line.
    let at_start = scan_braces(ground(), done);
    lemma_open_scope_depth(ground(), done);
    assert(at_start == Scope { depth: level(front, n), entered_at: None });
    lemma_level_of_front(front, seq![line], n);
    // The depth at the end of the line.
    lemma_scan_joined(ground(), done, l.push('\n'));
    assert(l.push('\n').drop_last() =~= l);
    if l.len() > 0 && l.last() == '\r' {
        assert(l.drop_last() == line);
    }
    assert(scan_braces(at_start, l.push('\n')) == scan_braces(at_start, l)) by {
        assert(l.push('\n').last() == '\n');
    }
    assert(scan_braces(at_start, l) == scan_braces(at_start, line)) by {
        if l.len() > 0 && l.last() == '\r' {
            assert(scan_braces(at_start, l) == scan_braces(at_start, l.drop_last()));
        }
    }
    assert(level(all, n + 1) == scan_braces(ground(), next).depth);
    // No closing brace of the line closes too much.
    assert forall|j: int| 0 <= j < all.len() implies stays_above(
        Scope { depth: #[trigger] level(all, j), entered_at: None },
        all[j],
        -1,
    ) by {
        if j < n {
            lemma_level_of_front(front, seq![line], j);
            assert(all[j] == front[j]);
        } else {
            assert forall|k: int| 0 <= k < line.len() && line[k] == '}' implies (
            #[trigger] scan_braces(at_start, line.subrange(0, k + 1))).depth > -1 by {
                assert(x.subrange(0, p + k + 1) =~= done + line.subrange(0, k + 1));
                lemma_scan_joined(ground(), done, line.subrange(0, k + 1));
                assert(x[p + k] == '}');
                assert(scan_braces(ground(), x.subrange(0, (p + k) + 1)).depth > -1);
            }
        }
    }
}

proof fn lemma_walk(x: Seq<char>, p: int)
    requires
        braces_balanced(x),
        whole_lines(x),
        0 <= p <= x.len(),
        whole_lines(x.subrange(0, p)),
        walked(x, p),
    ensures
        balanced(lines(x)),
    decreases x.len() - p,
{
    if p == x.len() {
        assert(x.subrange(0, p) =~= x);
    } else {
        let end = index_of_or_end(x, '\n', p);
        lemma_index_of_or_end(x, '\n', p);
        assert(end < x.len()) by {
            if end >= x.len() {
                assert(x[x.len() - 1] != '\n');
            }
        }
        lemma_walk_one_line(x, p, end);
        lemma_walk(x, end + 1);
    }
}

/// The lines of a text of whole lines with balanced braces have balanced
/// braces.
pub proof fn lemma_balanced_lines(x: Seq<char>)
    requires
        whole_lines(x),
        braces_balanced(x),
    ensures
        balanced(lines(x)),
{
    assert(x.subrange(0, 0) =~= Seq::<char>::empty());
    assert(lines(Seq::<char>::empty()) =~= Seq::<Seq<char>>::empty());
    lemma_walk(x, 0);
}

/// A source text with a test module in it has as many counted functions
/// as the same text without the module, whatever the depth at which the
/// module stands and however deep the nesting inside it goes. The texts
/// before the module and inside it are made of whole lines; the texts
/// around the module and inside it open no raw string and hold no marker
/// of their own; the braces inside the module are balanced.
#[verifier::rlimit(50)]
pub proof fn lemma_count_without_test_module(above: Seq<char>, body: Seq<char>, below: Seq<char>)
    requires
        whole_lines(above),
        whole_lines(body),
        quiet(above),
        quiet(body),
        quiet(below),
        braces_balanced(body),
    ensures
        function_count(above + test_module(body) + below) == function_count(above + below),
{
    lemma_quiet_lines(above);
    lemma_quiet_lines(body);
    lemma_quiet_lines(below);
    lemma_balanced_lines(body);
    lemma_lines_with_module(above, body, below);
    lemma_lines_of_joined(above, below);
    assert(!contains(trim(marker_line()), raw_open()) && contains(
        trim(marker_line()),
        test_marker(),
    ) && braceless(marker_line())) by {
        lemma_marker_line();
    }
    assert(plain(opening_line()) && opens_one(opening_line())) by {
        lemma_opening_line();
    }
    assert(plain(closing_line()) && closes_one(closing_line())) by {
        lemma_closing_line();
    }
    lemma_test_module_adds_nothing(
        lines(above),
        marker_line(),
        opening_line(),
        lines(body),
        closing_line(),
        lines(below),
    );
}

} // verus!
