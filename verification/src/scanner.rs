//! Lexical scanner state shared by the line-oriented analyzers.
//!
//! The analyzers do not parse. They keep three pieces of state from line to
//! line: whether the scan is inside a multi-line raw string, the running
//! brace depth, and the depth at which a tracked scope (a test module, a
//! test function) was entered. Braces are counted character by character,
//! whatever surrounds them; only lines inside a raw string are left out.

use vstd::prelude::*;
use crate::text::{contains, holds, lines};

verus! {

/// The token that opens a raw string.
pub open spec fn raw_open() -> Seq<char> {
    "r#\""@
}

/// The token that closes a raw string.
pub open spec fn raw_close() -> Seq<char> {
    "\"#"@
}

/// The line belongs to a raw string: the scan was inside one, or the line
/// opens one. Such a line is left out of every other check.
pub open spec fn in_raw_string(was_inside: bool, trimmed: Seq<char>) -> bool {
    was_inside || contains(trimmed, raw_open())
}

/// Whether the scan is inside a raw string after the line. A line of a raw
/// string that holds the closing token ends it, so a line with both tokens
/// is resolved at once; a raw string that is never closed lasts to the end.
pub open spec fn raw_after(was_inside: bool, trimmed: Seq<char>) -> bool {
    in_raw_string(was_inside, trimmed) && !contains(trimmed, raw_close())
}

/// Advances the raw-string state over one line and says whether the line
/// belongs to a raw string.
pub fn raw_step(inside: &mut bool, trimmed: &Vec<char>) -> (skip: bool)
    ensures
        skip == in_raw_string(*old(inside), trimmed@),
        *final(inside) == raw_after(*old(inside), trimmed@),
{
    if holds(trimmed, "r#\"") {
        *inside = true;
    }
    if *inside {
        if holds(trimmed, "\"#") {
            *inside = false;
        }
        true
    } else {
        false
    }
}

/// Brace depth, and the depth at which the tracked scope was entered while
/// the scan is inside that scope.
pub struct Scope {
    pub depth: int,
    pub entered_at: Option<int>,
}

/// The scope state after one more character. An opening brace raises the
/// depth and a closing brace lowers it; the tracked scope ends with the
/// closing brace that brings the depth back to the depth of entry or below.
pub open spec fn brace_step(s: Scope, c: char) -> Scope {
    if c == '{' {
        Scope { depth: s.depth + 1, entered_at: s.entered_at }
    } else if c == '}' {
        Scope {
            depth: s.depth - 1,
            entered_at: match s.entered_at {
                Some(d) => if s.depth - 1 <= d {
                    None
                } else {
                    Some(d)
                },
                None => None,
            },
        }
    } else {
        s
    }
}

/// The scope state after the characters of `line`, read left to right.
pub open spec fn scan_braces(s: Scope, line: Seq<char>) -> Scope
    decreases line.len(),
{
    if line.len() == 0 {
        s
    } else {
        brace_step(scan_braces(s, line.drop_last()), line.last())
    }
}

/// No closing brace of `line` brings the depth back to `d` or below.
pub open spec fn stays_above(s: Scope, line: Seq<char>, d: int) -> bool {
    forall|k: int|
        0 <= k < line.len() && line[k] == '}' ==> (#[trigger] scan_braces(
            s,
            line.subrange(0, k + 1),
        )).depth > d
}

/// The depth after a line does not depend on the scope that is tracked.
pub proof fn lemma_depth_ignores_scope(a: Scope, b: Scope, line: Seq<char>)
    requires
        a.depth == b.depth,
    ensures
        scan_braces(a, line).depth == scan_braces(b, line).depth,
    decreases line.len(),
{
    if line.len() > 0 {
        lemma_depth_ignores_scope(a, b, line.drop_last());
    }
}

/// A scope entered at depth `e` or below `d` is still open after a line
/// whose closing braces all leave the depth above `d`, however deep the
/// nesting goes.
pub proof fn lemma_scope_stays_open(s: Scope, line: Seq<char>, e: int, d: int)
    requires
        s.entered_at == Some(e),
        e <= d,
        stays_above(Scope { depth: s.depth, entered_at: Some(d) }, line, d),
    ensures
        scan_braces(s, line).entered_at == Some(e),
    decreases line.len(),
{
    let marked = Scope { depth: s.depth, entered_at: Some(d) };
    if line.len() > 0 {
        let front = line.drop_last();
        assert forall|k: int| 0 <= k < front.len() && front[k] == '}' implies (
        #[trigger] scan_braces(marked, front.subrange(0, k + 1))).depth > d by {
            assert(front.subrange(0, k + 1) =~= line.subrange(0, k + 1));
        }
        lemma_scope_stays_open(s, front, e, d);
        if line.last() == '}' {
            let k = line.len() - 1;
            assert(line.subrange(0, k + 1) =~= line);
            assert(line[k] == '}');
            assert(scan_braces(marked, line.subrange(0, k + 1)).depth > d);
            lemma_depth_ignores_scope(s, marked, line);
        }
    }
}

/// While a scope is open the depth is not below the depth of entry, and
/// the depth of entry does not change.
pub proof fn lemma_open_scope_depth(s: Scope, line: Seq<char>)
    requires
        s.entered_at is Some ==> s.depth >= s.entered_at->0,
    ensures
        scan_braces(s, line).entered_at is Some ==> scan_braces(s, line).entered_at
            == s.entered_at && scan_braces(s, line).depth >= s.entered_at->0,
        s.entered_at is None ==> scan_braces(s, line).entered_at is None,
    decreases line.len(),
{
    if line.len() > 0 {
        lemma_open_scope_depth(s, line.drop_last());
    }
}

/// The scope state held in machine integers.
pub open spec fn scope_of(depth: i128, entered_at: Option<i128>) -> Scope {
    Scope {
        depth: depth as int,
        entered_at: match entered_at {
            Some(d) => Some(d as int),
            None => None,
        },
    }
}

/// The largest distance from zero that a depth can have after reading a
/// text that fits in memory.
pub open spec fn depth_limit() -> int {
    0x1_0000_0000_0000_0000
}

/// Reads the braces of one line.
pub fn scan_line(line: &Vec<char>, depth: i128, entered_at: Option<i128>) -> (r: (
    i128,
    Option<i128>,
))
    requires
        -depth_limit() <= depth - line.len(),
        depth + line.len() <= depth_limit(),
    ensures
        scope_of(r.0, r.1) == scan_braces(scope_of(depth, entered_at), line@),
        depth - line.len() <= r.0 <= depth + line.len(),
{
    let mut d: i128 = depth;
    let mut e: Option<i128> = entered_at;
    let mut k: usize = 0;
    assert(line@.subrange(0, 0) =~= Seq::<char>::empty());
    while k < line.len()
        invariant
            k <= line.len(),
            -depth_limit() <= depth - line.len(),
            depth + line.len() <= depth_limit(),
            depth - k <= d <= depth + k,
            scope_of(d, e) == scan_braces(scope_of(depth, entered_at), line@.subrange(0, k as int)),
        decreases line.len() - k,
    {
        let c = line[k];
        assert(line@.subrange(0, k + 1).drop_last() =~= line@.subrange(0, k as int));
        if c == '{' {
            d = d + 1;
        } else if c == '}' {
            d = d - 1;
            e = match e {
                Some(at) => if d <= at {
                    None
                } else {
                    Some(at)
                },
                None => None,
            };
        }
        k = k + 1;
    }
    assert(line@.subrange(0, line@.len() as int) =~= line@);
    (d, e)
}

/// The number of characters in the lines from index `from` on.
pub open spec fn chars_left(ls: Seq<Seq<char>>, from: int) -> nat
    decreases ls.len() - from,
{
    if from < 0 || from >= ls.len() {
        0
    } else {
        ls[from].len() + chars_left(ls, from + 1)
    }
}

proof fn lemma_chars_left_shift(head: Seq<char>, rest: Seq<Seq<char>>, from: int)
    requires
        0 <= from,
    ensures
        chars_left(seq![head] + rest, from + 1) == chars_left(rest, from),
    decreases rest.len() - from,
{
    let all = seq![head] + rest;
    if from < rest.len() {
        assert(all[from + 1] == rest[from]);
        lemma_chars_left_shift(head, rest, from + 1);
    }
}

proof fn lemma_lines_from_fit(s: Seq<char>, from: int)
    requires
        0 <= from <= s.len(),
    ensures
        chars_left(crate::text::lines_from(s, from), 0) <= s.len() - from,
    decreases s.len() - from,
{
    if from < s.len() {
        let end = crate::text::index_of_or_end(s, '\n', from);
        crate::text::lemma_index_of_or_end(s, '\n', from);
        if end >= s.len() {
            let only = seq![crate::text::line_between(s, from, s.len() as int)];
            assert(chars_left(only, 1) == 0);
        } else {
            let head = crate::text::line_between(s, from, end);
            let rest = crate::text::lines_from(s, end + 1);
            lemma_lines_from_fit(s, end + 1);
            lemma_chars_left_shift(head, rest, 0);
            assert((seq![head] + rest)[0] == head);
        }
    }
}

/// The lines of a text hold no more characters than the text.
pub proof fn lemma_lines_fit(s: Seq<char>)
    ensures
        chars_left(lines(s), 0) <= s.len(),
{
    lemma_lines_from_fit(s, 0);
}

} // verus!
