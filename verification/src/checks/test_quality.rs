//! Detection of trivial or placeholder tests.

use vstd::prelude::*;
use vstd::string::*;
use crate::checks::{
    all_wf, append_results, findings, lemma_findings_push, CheckResult, Finding, Severity,
};
use crate::project::{project_sources, source_files, targets, Entry, Project};
use crate::scanner::{
    chars_left, depth_limit, in_raw_string, lemma_lines_fit, raw_after, raw_step, scan_braces,
    scan_line, Scope,
};
use crate::text::{
    chars_of, contains, decimal, find, find_in, holds, index_of_or_end, lemma_find_from, lines,
    matches_at, push_chars, push_decimal, same_text, scan_to, slice_of, split_lines, texts, trim,
    trimmed,
};

verus! {

/// Name of this check.
pub open spec fn check_name() -> Seq<char> {
    "test-quality"@
}

/// The patterns that mark a vacuous assertion or a test not yet written.
pub open spec fn trivial_patterns() -> Seq<Seq<char>> {
    seq![
        "assert!(true)"@,
        "assert_eq!(1, 1)"@,
        "assert_eq!(true, true)"@,
        "assert_ne!(1, 2)"@,
        "assert_ne!(true, false)"@,
        "todo!()"@,
        "unimplemented!()"@,
        "panic!(\"not implemented\")"@,
        "panic!(\"not yet implemented\")"@,
    ]
}

fn patterns() -> (r: Vec<&'static str>)
    ensures
        r@.len() == trivial_patterns().len(),
        forall|k: int| 0 <= k < r@.len() ==> (#[trigger] r@[k])@ == trivial_patterns()[k],
{
    vec![
        "assert!(true)",
        "assert_eq!(1, 1)",
        "assert_eq!(true, true)",
        "assert_ne!(1, 2)",
        "assert_ne!(true, false)",
        "todo!()",
        "unimplemented!()",
        "panic!(\"not implemented\")",
        "panic!(\"not yet implemented\")",
    ]
}

/// What the scan remembers from line to line.
pub struct TestScan {
    /// The scan is inside a multi-line raw string.
    pub inside_raw: bool,
    /// A test marker was seen and its function has not ended.
    pub marked: bool,
    /// Name of the test function, once its definition was seen; else empty.
    pub name: Seq<char>,
    /// Line of the test marker.
    pub start_line: usize,
    /// Running brace depth.
    pub depth: int,
    /// Brace depth at the definition of the test function.
    pub entry_depth: int,
}

impl TestScan {
    /// The state at the start of a file.
    pub open spec fn start() -> TestScan {
        TestScan {
            inside_raw: false,
            marked: false,
            name: Seq::empty(),
            start_line: 0,
            depth: 0,
            entry_depth: 0,
        }
    }

    /// The scan is inside a test function whose name is known.
    pub open spec fn in_test(self) -> bool {
        self.marked && self.name.len() > 0
    }
}

/// The name defined on a line: what stands between the first `fn ` and the
/// next opening parenthesis, trimmed. `None` where the line has no such
/// definition.
pub open spec fn defined_name(t: Seq<char>) -> Option<Seq<char>> {
    match find(t, "fn "@) {
        Some(i) => {
            let rest = t.subrange(i + "fn "@.len(), t.len() as int);
            let end = index_of_or_end(rest, '(', 0);
            if end < rest.len() {
                Some(trim(rest.subrange(0, end)))
            } else {
                None
            }
        },
        None => None,
    }
}

/// The state after the trimmed line `t` has been looked at for a function
/// definition: a marked scan without a name takes the name defined on the
/// line, and records the depth at which the function starts.
pub open spec fn after_definition(st: TestScan, t: Seq<char>) -> TestScan {
    if st.marked && st.name.len() == 0 && contains(t, "fn "@) {
        match defined_name(t) {
            Some(name) => TestScan { name, entry_depth: st.depth, ..st },
            None => st,
        }
    } else {
        st
    }
}

/// The state after the braces of `line` were read: the test function ends
/// with the closing brace that brings the depth back to its entry depth.
pub open spec fn after_braces(st: TestScan, line: Seq<char>) -> TestScan {
    let scope = scan_braces(
        Scope {
            depth: st.depth,
            entered_at: if st.in_test() {
                Some(st.entry_depth)
            } else {
                None
            },
        },
        line,
    );
    if st.in_test() && scope.entered_at is None {
        TestScan { marked: false, name: Seq::empty(), depth: scope.depth, ..st }
    } else {
        TestScan { depth: scope.depth, ..st }
    }
}

/// The state after line number `line_number`.
pub open spec fn after_line(st: TestScan, line: Seq<char>, line_number: usize) -> TestScan {
    let t = trim(line);
    if in_raw_string(st.inside_raw, t) {
        TestScan { inside_raw: raw_after(st.inside_raw, t), ..st }
    } else if t == "#[test]"@ {
        TestScan { inside_raw: false, marked: true, start_line: line_number, ..st }
    } else {
        TestScan { inside_raw: false, ..after_braces(after_definition(st, t), line) }
    }
}

/// The finding for one trivial pattern inside the test `name`.
pub open spec fn trivial_finding(
    pattern: Seq<char>,
    name: Seq<char>,
    start_line: usize,
    path: Seq<char>,
    line_number: usize,
) -> Finding {
    Finding::fail(
        check_name(),
        Severity::Warning,
        "Trivial test pattern '"@ + pattern + "' in test '"@ + name + "'"@,
    ).with_file(path).with_line(line_number).with_fix(
        "Replace trivial assertion with meaningful test logic in '"@ + name
            + "' (started at line "@ + decimal(start_line as nat) + ")"@,
    )
}

/// The findings for the patterns from index `k` on that the trimmed line
/// `t` holds, in the order of the patterns.
pub open spec fn pattern_findings(
    k: int,
    t: Seq<char>,
    name: Seq<char>,
    start_line: usize,
    path: Seq<char>,
    line_number: usize,
) -> Seq<Finding>
    decreases trivial_patterns().len() - k,
{
    if k < 0 || k >= trivial_patterns().len() {
        Seq::empty()
    } else {
        let here = if contains(t, trivial_patterns()[k]) {
            seq![trivial_finding(trivial_patterns()[k], name, start_line, path, line_number)]
        } else {
            Seq::empty()
        };
        here + pattern_findings(k + 1, t, name, start_line, path, line_number)
    }
}

/// The line belongs to a test function: it is no part of a raw string
/// and no test marker, and the scan is inside a named test function when
/// the braces of the line are read. That holds for the line that defines
/// the test and for the line that closes it, so a test written on one
/// line belongs to itself.
pub open spec fn in_test_function(st: TestScan, line: Seq<char>) -> bool {
    let t = trim(line);
    !in_raw_string(st.inside_raw, t) && t != "#[test]"@ && after_definition(st, t).in_test()
}

/// The findings for one line: those of its trivial patterns where the
/// line belongs to a test function, none otherwise.
pub open spec fn line_findings(
    st: TestScan,
    line: Seq<char>,
    path: Seq<char>,
    line_number: usize,
) -> Seq<Finding> {
    let t = trim(line);
    let test = after_definition(st, t);
    if in_test_function(st, line) {
        pattern_findings(0, t, test.name, test.start_line, path, line_number)
    } else {
        Seq::empty()
    }
}

/// A test function that is open after a line was open when the braces of
/// the line were read.
pub proof fn lemma_open_after_was_open(st: TestScan, line: Seq<char>, line_number: usize)
    requires
        !in_raw_string(st.inside_raw, trim(line)),
        trim(line) != "#[test]"@,
        after_line(st, line, line_number).in_test(),
    ensures
        in_test_function(st, line),
        after_line(st, line, line_number).name == after_definition(st, trim(line)).name,
        after_line(st, line, line_number).start_line == after_definition(
            st,
            trim(line),
        ).start_line,
{
}

/// The findings for the lines from index `i` on, scanned from state `st`.
pub open spec fn scan_findings(ls: Seq<Seq<char>>, i: int, st: TestScan, path: Seq<char>) -> Seq<
    Finding,
>
    decreases ls.len() - i,
{
    if i < 0 || i >= ls.len() {
        Seq::empty()
    } else {
        line_findings(st, ls[i], path, (i + 1) as usize) + scan_findings(
            ls,
            i + 1,
            after_line(st, ls[i], (i + 1) as usize),
            path,
        )
    }
}

/// The trivial-test findings of a file, in line order.
pub open spec fn trivial_findings(content: Seq<char>, path: Seq<char>) -> Seq<Finding> {
    scan_findings(lines(content), 0, TestScan::start(), path)
}

/// The finding for a file without trivial tests.
pub open spec fn clean_finding(file_name: Seq<char>, path: Seq<char>) -> Finding {
    Finding::pass(check_name(), file_name + ": No trivial tests found"@).with_file(path)
}

/// The finding for a file that could not be read.
pub open spec fn unreadable_finding(path: Seq<char>, reason: Seq<char>) -> Finding {
    Finding::fail(check_name(), Severity::Warning, "Read error: "@ + reason).with_file(path)
}

/// The findings for one source file of the snapshot.
pub open spec fn entry_findings(e: Entry) -> Seq<Finding> {
    match e.content {
        Ok(c) => {
            let found = trivial_findings(c@, e.path@);
            if found.len() == 0 {
                seq![clean_finding(e.name@, e.path@)]
            } else {
                found
            }
        },
        Err(reason) => seq![unreadable_finding(e.path@, reason@)],
    }
}

/// The findings for the files from index `from` on.
pub open spec fn files_findings(files: Seq<Entry>, from: int) -> Seq<Finding>
    decreases files.len() - from,
{
    if from < 0 || from >= files.len() {
        Seq::empty()
    } else {
        entry_findings(files[from]) + files_findings(files, from + 1)
    }
}

proof fn lemma_pattern_findings_wf(
    k: int,
    t: Seq<char>,
    name: Seq<char>,
    start_line: usize,
    path: Seq<char>,
    line_number: usize,
)
    ensures
        all_wf(pattern_findings(k, t, name, start_line, path, line_number)),
    decreases trivial_patterns().len() - k,
{
    reveal_strlit("'");
    if 0 <= k < trivial_patterns().len() {
        lemma_pattern_findings_wf(k + 1, t, name, start_line, path, line_number);
    }
}

/// Every finding of a scan satisfies the invariant of the result model.
pub proof fn lemma_scan_findings_wf(ls: Seq<Seq<char>>, i: int, st: TestScan, path: Seq<char>)
    ensures
        all_wf(scan_findings(ls, i, st, path)),
    decreases ls.len() - i,
{
    if 0 <= i < ls.len() {
        let n = (i + 1) as usize;
        let test = after_definition(st, trim(ls[i]));
        lemma_pattern_findings_wf(0, trim(ls[i]), test.name, test.start_line, path, n);
        lemma_scan_findings_wf(ls, i + 1, after_line(st, ls[i], n), path);
    }
}

/// Every finding for a file satisfies the invariant of the result model.
pub proof fn lemma_entry_findings_wf(e: Entry)
    ensures
        all_wf(entry_findings(e)),
{
    reveal_strlit(": No trivial tests found");
    reveal_strlit("Read error: ");
    match e.content {
        Ok(c) => {
            lemma_scan_findings_wf(lines(c@), 0, TestScan::start(), e.path@);
        },
        Err(_) => {},
    }
}

/// Every finding of the check satisfies the invariant of the result model.
pub proof fn lemma_files_findings_wf(files: Seq<Entry>, from: int)
    ensures
        all_wf(files_findings(files, from)),
    decreases files.len() - from,
{
    if 0 <= from < files.len() {
        lemma_entry_findings_wf(files[from]);
        lemma_files_findings_wf(files, from + 1);
    }
}

/// A line that holds none of the trivial patterns gives no finding.
pub proof fn lemma_no_pattern_no_finding(
    st: TestScan,
    line: Seq<char>,
    path: Seq<char>,
    line_number: usize,
)
    requires
        forall|k: int|
            0 <= k < trivial_patterns().len() ==> !contains(trim(line), #[trigger] trivial_patterns()[k]),
    ensures
        line_findings(st, line, path, line_number).len() == 0,
{
    let test = after_definition(st, trim(line));
    lemma_none_from(0, trim(line), test.name, test.start_line, path, line_number);
}

proof fn lemma_none_from(
    k: int,
    t: Seq<char>,
    name: Seq<char>,
    start_line: usize,
    path: Seq<char>,
    line_number: usize,
)
    requires
        forall|j: int|
            0 <= j < trivial_patterns().len() ==> !contains(t, #[trigger] trivial_patterns()[j]),
    ensures
        pattern_findings(k, t, name, start_line, path, line_number).len() == 0,
    decreases trivial_patterns().len() - k,
{
    if 0 <= k < trivial_patterns().len() {
        lemma_none_from(k + 1, t, name, start_line, path, line_number);
    }
}

/// A line that holds a trivial pattern is flagged where the scan is inside
/// a named test function before or after the braces of the line are read.
pub proof fn lemma_pattern_is_flagged(
    st: TestScan,
    line: Seq<char>,
    path: Seq<char>,
    line_number: usize,
    k: int,
)
    requires
        0 <= k < trivial_patterns().len(),
        contains(trim(line), trivial_patterns()[k]),
        !in_raw_string(st.inside_raw, trim(line)),
        trim(line) != "#[test]"@,
        after_definition(st, trim(line)).in_test() || after_line(st, line, line_number).in_test(),
    ensures
        line_findings(st, line, path, line_number).contains(
            trivial_finding(
                trivial_patterns()[k],
                after_definition(st, trim(line)).name,
                after_definition(st, trim(line)).start_line,
                path,
                line_number,
            ),
        ),
{
    let test = after_definition(st, trim(line));
    lemma_flagged_from(0, k, trim(line), test.name, test.start_line, path, line_number);
}

proof fn lemma_flagged_from(
    from: int,
    k: int,
    t: Seq<char>,
    name: Seq<char>,
    start_line: usize,
    path: Seq<char>,
    line_number: usize,
)
    requires
        0 <= from <= k < trivial_patterns().len(),
        contains(t, trivial_patterns()[k]),
    ensures
        pattern_findings(from, t, name, start_line, path, line_number).contains(
            trivial_finding(trivial_patterns()[k], name, start_line, path, line_number),
        ),
    decreases k - from,
{
    let wanted = trivial_finding(trivial_patterns()[k], name, start_line, path, line_number);
    let all = pattern_findings(from, t, name, start_line, path, line_number);
    let rest = pattern_findings(from + 1, t, name, start_line, path, line_number);
    if from == k {
        assert(all[0] == wanted);
    } else {
        lemma_flagged_from(from + 1, k, t, name, start_line, path, line_number);
        let j = choose|j: int| 0 <= j < rest.len() && rest[j] == wanted;
        let shift = all.len() - rest.len();
        assert(all[shift + j] == wanted);
    }
}

fn name_defined_on(t: &Vec<char>) -> (r: Option<Vec<char>>)
    ensures
        match r {
            Some(name) => defined_name(t@) == Some(name@),
            None => defined_name(t@) is None,
        },
{
    let pat = chars_of("fn ");
    proof {
        lemma_find_from(t@, pat@, 0);
    }
    match find_in(t, &pat, 0) {
        Some(start) => {
            assert(matches_at(t@, pat@, start as int));
            assert(start + pat.len() <= t.len());
            let rest = slice_of(t, start + pat.len(), t.len());
            let end = scan_to(&rest, '(', 0);
            if end < rest.len() {
                let inner = slice_of(&rest, 0, end);
                Some(trimmed(&inner))
            } else {
                None
            }
        },
        None => None,
    }
}

fn trivial_result(
    pattern: &str,
    name: &Vec<char>,
    start_line: usize,
    path: &str,
    line_number: usize,
) -> (r: CheckResult)
    ensures
        r@ == trivial_finding(pattern@, name@, start_line, path@, line_number),
{
    let mut message = String::new();
    message.append("Trivial test pattern '");
    message.append(pattern);
    message.append("' in test '");
    push_chars(&mut message, name);
    message.append("'");
    assert(message@ =~= "Trivial test pattern '"@ + pattern@ + "' in test '"@ + name@ + "'"@);
    let mut fix = String::new();
    fix.append("Replace trivial assertion with meaningful test logic in '");
    push_chars(&mut fix, name);
    fix.append("' (started at line ");
    push_decimal(&mut fix, start_line as u64);
    fix.append(")");
    assert(fix@ =~= "Replace trivial assertion with meaningful test logic in '"@ + name@
        + "' (started at line "@ + decimal(start_line as nat) + ")"@);
    CheckResult::fail("test-quality", Severity::Warning, message.as_str()).with_file(
        path,
    ).with_line(line_number).with_fix(fix.as_str())
}

fn push_pattern_results(
    out: &mut Vec<CheckResult>,
    t: &Vec<char>,
    name: &Vec<char>,
    start_line: usize,
    path: &str,
    line_number: usize,
)
    ensures
        findings(final(out)@) == findings(old(out)@) + pattern_findings(
            0,
            t@,
            name@,
            start_line,
            path@,
            line_number,
        ),
{
    let pats = patterns();
    let mut k: usize = 0;
    while k < pats.len()
        invariant
            k <= pats.len(),
            pats@.len() == trivial_patterns().len(),
            forall|j: int| 0 <= j < pats@.len() ==> (#[trigger] pats@[j])@ == trivial_patterns()[j],
            findings(out@) + pattern_findings(k as int, t@, name@, start_line, path@, line_number)
                == findings(old(out)@) + pattern_findings(
                0,
                t@,
                name@,
                start_line,
                path@,
                line_number,
            ),
        decreases pats.len() - k,
    {
        let ghost before = findings(out@);
        let pattern: &str = pats[k];
        assert(pattern@ == trivial_patterns()[k as int]);
        if holds(t, pattern) {
            let r = trivial_result(pattern, name, start_line, path, line_number);
            proof {
                lemma_findings_push(out@, r);
            }
            out.push(r);
        }
        assert(findings(out@) + pattern_findings(
            k + 1,
            t@,
            name@,
            start_line,
            path@,
            line_number,
        ) =~= before + pattern_findings(k as int, t@, name@, start_line, path@, line_number));
        k = k + 1;
    }
    assert(findings(out@) + Seq::<Finding>::empty() =~= findings(out@));
}

/// Analyzes the content of one file for trivial tests. The findings come
/// in line order; a file without trivial tests gives none.
pub fn analyze_file(content: &str, file_path: &str) -> (r: Vec<CheckResult>)
    ensures
        findings(r@) == trivial_findings(content@, file_path@),
        all_wf(findings(r@)),
{
    proof {
        lemma_scan_findings_wf(lines(content@), 0, TestScan::start(), file_path@);
    }
    let text = chars_of(content);
    let ls = split_lines(&text);
    let mut out: Vec<CheckResult> = Vec::new();
    let mut inside: bool = false;
    let mut marked: bool = false;
    let mut name: Vec<char> = Vec::new();
    let mut start_line: usize = 0;
    let mut depth: i128 = 0;
    let mut entry: i128 = 0;
    let mut i: usize = 0;
    proof {
        lemma_lines_fit(text@);
        assert(chars_left(texts(ls@), 0) <= text@.len());
        assert(text@.len() <= usize::MAX);
        assert(findings(out@) =~= Seq::<Finding>::empty());
    }
    while i < ls.len()
        invariant
            i <= ls.len(),
            texts(ls@) == lines(content@),
            -depth_limit() <= depth - chars_left(texts(ls@), i as int),
            depth + chars_left(texts(ls@), i as int) <= depth_limit(),
            findings(out@) + scan_findings(
                texts(ls@),
                i as int,
                TestScan {
                    inside_raw: inside,
                    marked,
                    name: name@,
                    start_line,
                    depth: depth as int,
                    entry_depth: entry as int,
                },
                file_path@,
            ) == trivial_findings(content@, file_path@),
        decreases ls.len() - i,
    {
        let line = &ls[i];
        let line_number: usize = i + 1;
        let t = trimmed(line);
        assert(texts(ls@)[i as int] == line@);
        let ghost before = findings(out@);
        let ghost st = TestScan {
            inside_raw: inside,
            marked,
            name: name@,
            start_line,
            depth: depth as int,
            entry_depth: entry as int,
        };
        let skip = raw_step(&mut inside, &t);
        if skip {
        } else if same_text(&t, "#[test]") {
            marked = true;
            start_line = line_number;
        } else {
            if marked && name.len() == 0 && holds(&t, "fn ") {
                match name_defined_on(&t) {
                    Some(found) => {
                        name = found;
                        entry = depth;
                    },
                    None => {},
                }
            }
            let armed = marked && name.len() > 0;
            if armed {
                push_pattern_results(&mut out, &t, &name, start_line, file_path, line_number);
            }
            let scope = scan_line(
                line,
                depth,
                if armed {
                    Some(entry)
                } else {
                    None
                },
            );
            depth = scope.0;
            if armed && scope.1.is_none() {
                marked = false;
                name = Vec::new();
            }
        }
        proof {
            let next = TestScan {
                inside_raw: inside,
                marked,
                name: name@,
                start_line,
                depth: depth as int,
                entry_depth: entry as int,
            };
            assert(next == after_line(st, line@, line_number));
            assert(findings(out@) =~= before + line_findings(st, line@, file_path@, line_number));
            assert(findings(out@) + scan_findings(texts(ls@), i + 1, next, file_path@) =~= before
                + scan_findings(texts(ls@), i as int, st, file_path@));
        }
        i = i + 1;
    }
    assert(findings(out@) + Seq::<Finding>::empty() =~= findings(out@));
    out
}

/// Checks one source file of the snapshot.
pub fn check_entry(e: &Entry) -> (r: Vec<CheckResult>)
    ensures
        findings(r@) == entry_findings(*e),
        all_wf(findings(r@)),
{
    proof {
        lemma_entry_findings_wf(*e);
    }
    match &e.content {
        Ok(c) => {
            let found = analyze_file(c.as_str(), e.path.as_str());
            if found.len() == 0 {
                let mut message = String::new();
                message.append(e.name.as_str());
                message.append(": No trivial tests found");
                assert(message@ =~= e.name@ + ": No trivial tests found"@);
                let r = CheckResult::pass("test-quality", message.as_str()).with_file(
                    e.path.as_str(),
                );
                let mut out: Vec<CheckResult> = Vec::new();
                out.push(r);
                assert(findings(out@) =~= seq![clean_finding(e.name@, e.path@)]);
                out
            } else {
                found
            }
        },
        Err(reason) => {
            let mut message = String::new();
            message.append("Read error: ");
            message.append(reason.as_str());
            assert(message@ =~= "Read error: "@ + reason@);
            let r = CheckResult::fail("test-quality", Severity::Warning, message.as_str()).with_file(
                e.path.as_str(),
            );
            let mut out: Vec<CheckResult> = Vec::new();
            out.push(r);
            assert(findings(out@) =~= seq![unreadable_finding(e.path@, reason@)]);
            out
        },
    }
}

/// Checks the tests in all Rust source files of the project. The findings
/// come file by file in the order of the walk, and within a file in line
/// order.
pub fn check(project: &Project) -> (r: Vec<CheckResult>)
    ensures
        findings(r@) == files_findings(project_sources(*project), 0),
        all_wf(findings(r@)),
{
    let files = source_files(project);
    let mut out: Vec<CheckResult> = Vec::new();
    let mut i: usize = 0;
    assert(findings(out@) =~= Seq::<Finding>::empty());
    while i < files.len()
        invariant
            i <= files.len(),
            findings(out@) + files_findings(targets(files@), i as int) == files_findings(
                targets(files@),
                0,
            ),
        decreases files.len() - i,
    {
        let ghost before = findings(out@);
        let more = check_entry(files[i]);
        append_results(&mut out, more);
        assert(targets(files@)[i as int] == *files@[i as int]);
        assert(findings(out@) + files_findings(targets(files@), i + 1) =~= before
            + files_findings(targets(files@), i as int));
        i = i + 1;
    }
    assert(findings(out@) + Seq::<Finding>::empty() =~= findings(out@));
    proof {
        lemma_files_findings_wf(project_sources(*project), 0);
    }
    out
}

} // verus!
