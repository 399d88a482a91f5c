//! Check that modules don't have too many functions.

use vstd::prelude::*;
use vstd::string::*;
use crate::checks::{all_wf, findings, CheckResult, Finding, Severity};
use crate::project::{project_sources, source_files, targets, Entry, Project};
use crate::scanner::{
    chars_left, depth_limit, in_raw_string, lemma_lines_fit, lemma_open_scope_depth,
    lemma_scope_stays_open, raw_after, raw_step, scan_braces, scan_line, stays_above, Scope,
};
use crate::text::{
    begins_with, chars_of, contains, decimal, holds, lines, push_decimal, split_lines, starts_with,
    texts, trim, trimmed,
};

verus! {

/// Name of this check.
pub open spec fn check_name() -> Seq<char> {
    "function-count"@
}

/// The marker that introduces a test module.
pub open spec fn test_marker() -> Seq<char> {
    "#[cfg(test)]"@
}

/// The patterns that introduce a function, with their visibility and
/// qualifier prefixes.
pub open spec fn fn_patterns() -> Seq<Seq<char>> {
    seq![
        "fn "@,
        "pub fn "@,
        "pub(crate) fn "@,
        "pub(super) fn "@,
        "async fn "@,
        "pub async fn "@,
        "const fn "@,
        "pub const fn "@,
        "unsafe fn "@,
        "pub unsafe fn "@,
    ]
}

fn patterns() -> (r: Vec<&'static str>)
    ensures
        r@.len() == fn_patterns().len(),
        forall|k: int| 0 <= k < r@.len() ==> (#[trigger] r@[k])@ == fn_patterns()[k],
{
    vec![
        "fn ",
        "pub fn ",
        "pub(crate) fn ",
        "pub(super) fn ",
        "async fn ",
        "pub async fn ",
        "const fn ",
        "pub const fn ",
        "unsafe fn ",
        "pub unsafe fn ",
    ]
}

/// The trimmed line defines a function: it holds one of the introducer
/// patterns and an opening parenthesis.
pub open spec fn defines_function(t: Seq<char>) -> bool {
    (exists|k: int| 0 <= k < fn_patterns().len() && contains(t, #[trigger] fn_patterns()[k]))
        && contains(t, "("@)
}

/// The trimmed line is a comment line.
pub open spec fn is_comment(t: Seq<char>) -> bool {
    starts_with(t, "//"@) || starts_with(t, "/*"@) || starts_with(t, "*"@)
}

/// What the scan remembers from line to line.
pub struct FnScan {
    /// The scan is inside a multi-line raw string.
    pub inside_raw: bool,
    /// The scan is inside a test module.
    pub in_test: bool,
    /// Running brace depth.
    pub depth: int,
    /// Brace depth at the marker of the test module.
    pub entry_depth: int,
}

impl FnScan {
    /// The state at the start of a file.
    pub open spec fn start() -> FnScan {
        FnScan { inside_raw: false, in_test: false, depth: 0, entry_depth: 0 }
    }
}

/// The state after the trimmed line `t` was looked at for a test marker:
/// outside a test module a marker enters one at the current depth; inside
/// a test module a marker changes nothing, so that the module ends where
/// its own braces end.
pub open spec fn after_marker(st: FnScan, t: Seq<char>) -> FnScan {
    if contains(t, test_marker()) && !st.in_test {
        FnScan { in_test: true, entry_depth: st.depth, ..st }
    } else {
        st
    }
}

/// The scope state with which the braces of a line are read.
pub open spec fn scope_before(st: FnScan) -> Scope {
    Scope {
        depth: st.depth,
        entered_at: if st.in_test {
            Some(st.entry_depth)
        } else {
            None
        },
    }
}

/// The state after a line that is not part of a raw string.
pub open spec fn after_scanned(st: FnScan, line: Seq<char>) -> FnScan {
    let entered = after_marker(st, trim(line));
    let scope = scan_braces(scope_before(entered), line);
    FnScan {
        inside_raw: false,
        in_test: scope.entered_at is Some,
        depth: scope.depth,
        entry_depth: entered.entry_depth,
    }
}

/// The state after a line.
pub open spec fn after_line(st: FnScan, line: Seq<char>) -> FnScan {
    let t = trim(line);
    if in_raw_string(st.inside_raw, t) {
        FnScan { inside_raw: raw_after(st.inside_raw, t), ..st }
    } else {
        after_scanned(st, line)
    }
}

/// The line counts as a function definition: it is no part of a raw
/// string, the scan is outside every test module both before and after the
/// braces of the line are read, the line is no comment, and it defines a
/// function. So neither the line that opens a test module nor the line
/// that closes it counts.
pub open spec fn counts(st: FnScan, line: Seq<char>) -> bool {
    let t = trim(line);
    &&& !in_raw_string(st.inside_raw, t)
    &&& !after_marker(st, t).in_test
    &&& !after_scanned(st, line).in_test
    &&& !is_comment(t)
    &&& defines_function(t)
}

/// The state before line `k`.
pub open spec fn state_before(ls: Seq<Seq<char>>, k: int) -> FnScan
    decreases k,
{
    if k <= 0 || k > ls.len() {
        FnScan::start()
    } else {
        after_line(state_before(ls, k - 1), ls[k - 1])
    }
}

/// The number of lines among the first `n` that count as a function
/// definition.
pub open spec fn counted(ls: Seq<Seq<char>>, n: int) -> nat
    decreases n,
{
    if n <= 0 || n > ls.len() {
        0
    } else {
        counted(ls, n - 1) + if counts(state_before(ls, n - 1), ls[n - 1]) {
            1nat
        } else {
            0nat
        }
    }
}

/// The number of function definitions in a source text, outside test
/// modules, comments and raw strings.
pub open spec fn function_count(content: Seq<char>) -> nat {
    counted(lines(content), lines(content).len() as int)
}

/// Line `j` is read for markers and braces: it is no part of a raw string.
pub open spec fn scanned(ls: Seq<Seq<char>>, j: int) -> bool {
    !in_raw_string(state_before(ls, j).inside_raw, trim(ls[j]))
}

/// From the marker on line `m` up to line `k` the braces are balanced: no
/// closing brace brings the depth back to the depth `d` at the marker.
pub open spec fn balanced_within(ls: Seq<Seq<char>>, m: int, k: int, d: int) -> bool {
    forall|j: int|
        m <= j <= k && #[trigger] scanned(ls, j) ==> stays_above(
            Scope { depth: state_before(ls, j).depth, entered_at: Some(d) },
            ls[j],
            d,
        )
}

/// Inside a test module the depth is not below the depth at which the
/// module was entered.
pub proof fn lemma_depth_inside_test(ls: Seq<Seq<char>>, k: int)
    requires
        0 <= k <= ls.len(),
    ensures
        state_before(ls, k).in_test ==> state_before(ls, k).depth >= state_before(
            ls,
            k,
        ).entry_depth,
    decreases k,
{
    if k > 0 {
        lemma_depth_inside_test(ls, k - 1);
        let st = state_before(ls, k - 1);
        let line = ls[k - 1];
        if !in_raw_string(st.inside_raw, trim(line)) {
            lemma_open_scope_depth(scope_before(after_marker(st, trim(line))), line);
        }
    }
}

proof fn lemma_stays_in_test(ls: Seq<Seq<char>>, m: int, k: int)
    requires
        0 <= m <= k < ls.len(),
        scanned(ls, m),
        contains(trim(ls[m]), test_marker()),
        balanced_within(ls, m, k, state_before(ls, m).depth),
    ensures
        state_before(ls, k + 1).in_test,
        state_before(ls, k + 1).entry_depth <= state_before(ls, m).depth,
    decreases k - m,
{
    let d = state_before(ls, m).depth;
    let st = state_before(ls, k);
    if k > m {
        assert(balanced_within(ls, m, k - 1, d));
        lemma_stays_in_test(ls, m, k - 1);
    } else {
        lemma_depth_inside_test(ls, m);
    }
    if scanned(ls, k) {
        let entered = after_marker(st, trim(ls[k]));
        assert(entered.in_test && entered.entry_depth <= d);
        assert(stays_above(Scope { depth: st.depth, entered_at: Some(d) }, ls[k], d));
        lemma_scope_stays_open(scope_before(entered), ls[k], entered.entry_depth, d);
    }
}

/// No function defined inside a test module is counted, however deep it
/// is nested: where line `m` holds the marker of a test module and the
/// braces from there to the line before line `k` are balanced, line `k`
/// does not count. Line `k` may be the line of the marker itself, and it
/// may be the line that closes the module.
pub proof fn lemma_test_module_not_counted(ls: Seq<Seq<char>>, m: int, k: int)
    requires
        0 <= m <= k < ls.len(),
        scanned(ls, m),
        contains(trim(ls[m]), test_marker()),
        balanced_within(ls, m, k - 1, state_before(ls, m).depth),
    ensures
        !counts(state_before(ls, k), ls[k]),
{
    if k > m {
        lemma_stays_in_test(ls, m, k - 1);
    }
}

fn is_definition(t: &Vec<char>) -> (b: bool)
    ensures
        b == defines_function(t@),
{
    if !holds(t, "(") {
        return false;
    }
    let pats = patterns();
    let mut k: usize = 0;
    while k < pats.len()
        invariant
            k <= pats.len(),
            contains(t@, "("@),
            pats@.len() == fn_patterns().len(),
            forall|j: int| 0 <= j < pats@.len() ==> (#[trigger] pats@[j])@ == fn_patterns()[j],
            forall|j: int| 0 <= j < k ==> !contains(t@, #[trigger] fn_patterns()[j]),
        decreases pats.len() - k,
    {
        let pattern: &str = pats[k];
        assert(pattern@ == fn_patterns()[k as int]);
        if holds(t, pattern) {
            assert(contains(t@, fn_patterns()[k as int]));
            return true;
        }
        k = k + 1;
    }
    false
}

/// Counts the function definitions in Rust source code, leaving out test
/// modules, comment lines and raw strings.
pub fn count_functions(content: &str) -> (count: usize)
    ensures
        count == function_count(content@),
{
    let text = chars_of(content);
    let ls = split_lines(&text);
    let mut count: usize = 0;
    let mut inside: bool = false;
    let mut in_test: bool = false;
    let mut depth: i128 = 0;
    let mut entry: i128 = 0;
    let mut i: usize = 0;
    proof {
        lemma_lines_fit(text@);
        assert(chars_left(texts(ls@), 0) <= text@.len());
        assert(text@.len() <= usize::MAX);
    }
    while i < ls.len()
        invariant
            i <= ls.len(),
            texts(ls@) == lines(content@),
            count <= i,
            -depth_limit() <= depth - chars_left(texts(ls@), i as int),
            depth + chars_left(texts(ls@), i as int) <= depth_limit(),
            count == counted(texts(ls@), i as int),
            state_before(texts(ls@), i as int) == (FnScan {
                inside_raw: inside,
                in_test,
                depth: depth as int,
                entry_depth: entry as int,
            }),
        decreases ls.len() - i,
    {
        let line = &ls[i];
        let t = trimmed(line);
        assert(texts(ls@)[i as int] == line@);
        let skip = raw_step(&mut inside, &t);
        if !skip {
            if !in_test && holds(&t, "#[cfg(test)]") {
                in_test = true;
                entry = depth;
            }
            let inside_before = in_test;
            let scope = scan_line(
                line,
                depth,
                if in_test {
                    Some(entry)
                } else {
                    None
                },
            );
            depth = scope.0;
            in_test = scope.1.is_some();
            let comment = begins_with(&t, "//") || begins_with(&t, "/*") || begins_with(&t, "*");
            if !inside_before && !in_test && !comment && is_definition(&t) {
                count = count + 1;
            }
        }
        i = i + 1;
    }
    count
}

/// The finding for a file with `count` function definitions.
pub open spec fn count_finding(file_name: Seq<char>, path: Seq<char>, count: nat, max: nat) -> Finding {
    if count > max {
        Finding::fail(
            check_name(),
            Severity::Error,
            file_name + ": "@ + decimal(count) + " functions exceeds max "@ + decimal(max),
        ).with_file(path).with_fix("Split "@ + file_name + " into smaller modules with fewer functions"@)
    } else {
        Finding::pass(check_name(), file_name + ": "@ + decimal(count) + " functions (OK)"@).with_file(
            path,
        )
    }
}

/// The finding for a file that could not be read.
pub open spec fn unreadable_finding(path: Seq<char>, reason: Seq<char>) -> Finding {
    Finding::fail(check_name(), Severity::Warning, "Read error: "@ + reason).with_file(path)
}

/// The finding for one source file of the snapshot.
pub open spec fn entry_finding(e: Entry, max: nat) -> Finding {
    match e.content {
        Ok(c) => count_finding(e.name@, e.path@, function_count(c@), max),
        Err(reason) => unreadable_finding(e.path@, reason@),
    }
}

/// The findings for the source files, one for each, in their order.
pub open spec fn files_findings(files: Seq<Entry>, max: nat) -> Seq<Finding> {
    Seq::new(files.len(), |i: int| entry_finding(files[i], max))
}

/// Every finding of the check satisfies the invariant of the result model.
pub proof fn lemma_entry_finding_wf(e: Entry, max: nat)
    ensures
        entry_finding(e, max).wf(),
{
    reveal_strlit(": ");
    reveal_strlit("Read error: ");
}

/// Checks one source file of the snapshot: an error where it defines more
/// than `max_functions` functions, a pass otherwise.
pub fn check_entry(e: &Entry, max_functions: usize) -> (r: CheckResult)
    ensures
        r@ == entry_finding(*e, max_functions as nat),
        r@.wf(),
{
    proof {
        lemma_entry_finding_wf(*e, max_functions as nat);
    }
    match &e.content {
        Ok(c) => {
            let count = count_functions(c.as_str());
            let mut message = String::new();
            message.append(e.name.as_str());
            message.append(": ");
            push_decimal(&mut message, count as u64);
            if count > max_functions {
                message.append(" functions exceeds max ");
                push_decimal(&mut message, max_functions as u64);
                assert(message@ =~= e.name@ + ": "@ + decimal(count as nat)
                    + " functions exceeds max "@ + decimal(max_functions as nat));
                let mut fix = String::new();
                fix.append("Split ");
                fix.append(e.name.as_str());
                fix.append(" into smaller modules with fewer functions");
                assert(fix@ =~= "Split "@ + e.name@ + " into smaller modules with fewer functions"@);
                CheckResult::fail("function-count", Severity::Error, message.as_str()).with_file(
                    e.path.as_str(),
                ).with_fix(fix.as_str())
            } else {
                message.append(" functions (OK)");
                assert(message@ =~= e.name@ + ": "@ + decimal(count as nat) + " functions (OK)"@);
                CheckResult::pass("function-count", message.as_str()).with_file(e.path.as_str())
            }
        },
        Err(reason) => {
            let mut message = String::new();
            message.append("Read error: ");
            message.append(reason.as_str());
            assert(message@ =~= "Read error: "@ + reason@);
            CheckResult::fail("function-count", Severity::Warning, message.as_str()).with_file(
                e.path.as_str(),
            )
        },
    }
}

/// Checks the function count of every Rust source file of the project:
/// one finding for each file, in the order of the walk.
pub fn check(project: &Project, max_functions: usize) -> (r: Vec<CheckResult>)
    ensures
        findings(r@) == files_findings(project_sources(*project), max_functions as nat),
        all_wf(findings(r@)),
{
    let files = source_files(project);
    let mut out: Vec<CheckResult> = Vec::new();
    let mut i: usize = 0;
    while i < files.len()
        invariant
            i <= files.len(),
            out@.len() == i,
            forall|k: int|
                0 <= k < i ==> (#[trigger] out@[k])@ == entry_finding(
                    targets(files@)[k],
                    max_functions as nat,
                ),
        decreases files.len() - i,
    {
        assert(targets(files@)[i as int] == *files@[i as int]);
        let r = check_entry(files[i], max_functions);
        out.push(r);
        i = i + 1;
    }
    assert(findings(out@) =~= files_findings(targets(files@), max_functions as nat));
    proof {
        assert forall|k: int| 0 <= k < findings(out@).len() implies (#[trigger] findings(
            out@,
        )[k]).wf() by {
            lemma_entry_finding_wf(project_sources(*project)[k], max_functions as nat);
        }
    }
    out
}

} // verus!
