//! Detection of lint suppressions in source code.

use vstd::prelude::*;
use vstd::string::*;
use crate::checks::{all_wf, findings, lemma_findings_push, CheckResult, Finding, Severity};
use crate::project::{project_sources, source_files, targets, Entry, Project};
use crate::scanner::{in_raw_string, raw_after, raw_step};
use crate::text::{
    begins_with, chars_of, contains, find, find_in, holds, index_of_or_end, lemma_find_from, lines,
    matches_at, push_chars, scan_to, slice_of, split_lines, starts_with, string_of, texts, trim, trimmed,
};

verus! {

/// Name of this check.
pub open spec fn check_name() -> Seq<char> {
    "clippy-disables"@
}

/// The lint named by a suppression directive: what stands between the
/// first `allow(` of the line and the next closing parenthesis, trimmed;
/// empty where the line has no such directive.
pub open spec fn lint_name(line: Seq<char>) -> Seq<char> {
    match find(line, "allow("@) {
        Some(i) => {
            let rest = line.subrange(i + "allow("@.len(), line.len() as int);
            let end = index_of_or_end(rest, ')', 0);
            if end < rest.len() {
                trim(rest.subrange(0, end))
            } else {
                Seq::empty()
            }
        },
        None => Seq::empty(),
    }
}

fn lint_name_of(line: &Vec<char>) -> (r: Vec<char>)
    ensures
        r@ == lint_name(line@),
{
    let pat = chars_of("allow(");
    proof {
        lemma_find_from(line@, pat@, 0);
    }
    match find_in(line, &pat, 0) {
        Some(start) => {
            assert(matches_at(line@, pat@, start as int));
            assert(start + pat.len() <= line.len());
            let rest = slice_of(line, start + pat.len(), line.len());
            let end = scan_to(&rest, ')', 0);
            if end < rest.len() {
                let inner = slice_of(&rest, 0, end);
                trimmed(&inner)
            } else {
                Vec::new()
            }
        },
        None => Vec::new(),
    }
}

/// Extracts the lint name from a suppression directive.
pub fn extract_lint_name(line: &str) -> (r: String)
    ensures
        r@ == lint_name(line@),
{
    let l = chars_of(line);
    let name = lint_name_of(&l);
    string_of(&name)
}

/// Suppressing this lint is accepted: its name holds one of the
/// development-time markers.
pub open spec fn allowed_suppression(lint: Seq<char>) -> bool {
    contains(lint, "dead_code"@) || contains(lint, "unused"@)
}

fn is_allowed(lint: &Vec<char>) -> (b: bool)
    ensures
        b == allowed_suppression(lint@),
{
    holds(lint, "dead_code") || holds(lint, "unused")
}

/// Whether suppressing the lint of this name is accepted.
pub fn is_allowed_suppression(lint_name: &str) -> (b: bool)
    ensures
        b == allowed_suppression(lint_name@),
{
    let l = chars_of(lint_name);
    is_allowed(&l)
}

/// The line holds a suppression directive: an outer `allow` attribute, an
/// inner one, or a conditional attribute that holds an `allow`.
pub open spec fn suppresses(t: Seq<char>) -> bool {
    ||| contains(t, "#[allow("@)
    ||| contains(t, "#![allow("@)
    ||| contains(t, "#[cfg_attr("@) && contains(t, "allow("@)
}

/// The line offends: it holds a suppression directive for a lint that is
/// not accepted.
pub open spec fn offends(t: Seq<char>) -> bool {
    suppresses(t) && !allowed_suppression(lint_name(t))
}

/// Severity of a suppression: an error where the lint is one of the
/// stricter linter's, a warning otherwise.
pub open spec fn suppression_severity(lint: Seq<char>) -> Severity {
    if starts_with(lint, "clippy::"@) {
        Severity::Error
    } else {
        Severity::Warning
    }
}

/// The finding for a suppression on the trimmed line `t`.
pub open spec fn suppression_finding(
    file_name: Seq<char>,
    path: Seq<char>,
    t: Seq<char>,
    line_number: usize,
) -> Finding {
    Finding::fail(
        check_name(),
        suppression_severity(lint_name(t)),
        file_name + ": Lint suppression found: "@ + t,
    ).with_file(path).with_line(line_number).with_fix(
        "Remove the #[allow(...)] and fix the underlying issue instead"@,
    )
}

/// The findings for one line that is neither inside a raw string nor a
/// comment: one where the line offends, none otherwise.
pub open spec fn line_findings(
    file_name: Seq<char>,
    path: Seq<char>,
    t: Seq<char>,
    line_number: usize,
) -> Seq<Finding> {
    if offends(t) {
        seq![suppression_finding(file_name, path, t, line_number)]
    } else {
        Seq::empty()
    }
}

/// The findings for the lines from index `i` on, where `inside` says
/// whether line `i` starts inside a raw string.
pub open spec fn scan_findings(
    ls: Seq<Seq<char>>,
    i: int,
    inside: bool,
    file_name: Seq<char>,
    path: Seq<char>,
) -> Seq<Finding>
    decreases ls.len() - i,
{
    if i < 0 || i >= ls.len() {
        Seq::empty()
    } else {
        let t = trim(ls[i]);
        let here = if in_raw_string(inside, t) || starts_with(t, "//"@) {
            Seq::empty()
        } else {
            line_findings(file_name, path, t, (i + 1) as usize)
        };
        here + scan_findings(ls, i + 1, raw_after(inside, t), file_name, path)
    }
}

/// The finding for a file without suppressions.
pub open spec fn clean_finding(file_name: Seq<char>, path: Seq<char>) -> Finding {
    Finding::pass(check_name(), file_name + ": No lint suppressions found"@).with_file(path)
}

/// The findings for a file with the given content: one for each
/// offending line, in line order, or a single passing one.
pub open spec fn file_findings(content: Seq<char>, file_name: Seq<char>, path: Seq<char>) -> Seq<
    Finding,
> {
    let found = scan_findings(lines(content), 0, false, file_name, path);
    if found.len() == 0 {
        seq![clean_finding(file_name, path)]
    } else {
        found
    }
}

/// The finding for a file that could not be read.
pub open spec fn unreadable_finding(path: Seq<char>, reason: Seq<char>) -> Finding {
    Finding::fail(check_name(), Severity::Warning, "Read error: "@ + reason).with_file(path)
}

/// The findings for one source file of the snapshot.
pub open spec fn entry_findings(e: Entry) -> Seq<Finding> {
    match e.content {
        Ok(c) => file_findings(c@, e.name@, e.path@),
        Err(reason) => seq![unreadable_finding(e.path@, reason@)],
    }
}

/// The findings for the files from index `from` on.
pub open spec fn files_findings(files: Seq<Entry>, from: int) -> Seq<Finding>
    decreases files.len() - from,
{
    if from < 0 || from >= files.len() {
        Seq::empty()
    } else {
        entry_findings(files[from]) + files_findings(files, from + 1)
    }
}

/// Every finding of a scan satisfies the invariant of the result model.
pub proof fn lemma_scan_findings_wf(
    ls: Seq<Seq<char>>,
    i: int,
    inside: bool,
    file_name: Seq<char>,
    path: Seq<char>,
)
    ensures
        all_wf(scan_findings(ls, i, inside, file_name, path)),
    decreases ls.len() - i,
{
    reveal_strlit(": Lint suppression found: ");
    if 0 <= i < ls.len() {
        lemma_scan_findings_wf(ls, i + 1, raw_after(inside, trim(ls[i])), file_name, path);
    }
}

/// Every finding for the content of a file satisfies the invariant of the
/// result model.
pub proof fn lemma_file_findings_wf(content: Seq<char>, file_name: Seq<char>, path: Seq<char>)
    ensures
        all_wf(file_findings(content, file_name, path)),
{
    reveal_strlit(": No lint suppressions found");
    lemma_scan_findings_wf(lines(content), 0, false, file_name, path);
}

/// Every finding for a file satisfies the invariant of the result model.
pub proof fn lemma_entry_findings_wf(e: Entry)
    ensures
        all_wf(entry_findings(e)),
{
    reveal_strlit("Read error: ");
    match e.content {
        Ok(c) => {
            lemma_file_findings_wf(c@, e.name@, e.path@);
        },
        Err(_) => {},
    }
}

/// Every finding of the check satisfies the invariant of the result model.
pub proof fn lemma_files_findings_wf(files: Seq<Entry>, from: int)
    ensures
        all_wf(files_findings(files, from)),
    decreases files.len() - from,
{
    if 0 <= from < files.len() {
        lemma_entry_findings_wf(files[from]);
        lemma_files_findings_wf(files, from + 1);
    }
}

fn suppression_result(file_name: &str, path: &str, t: &Vec<char>, line_number: usize) -> (r:
    CheckResult)
    ensures
        r@ == suppression_finding(file_name@, path@, t@, line_number),
{
    let lint = lint_name_of(t);
    let severity = if begins_with(&lint, "clippy::") {
        Severity::Error
    } else {
        Severity::Warning
    };
    let mut message = String::new();
    message.append(file_name);
    message.append(": Lint suppression found: ");
    push_chars(&mut message, t);
    assert(message@ =~= file_name@ + ": Lint suppression found: "@ + t@);
    CheckResult::fail("clippy-disables", severity, message.as_str()).with_file(path).with_line(
        line_number,
    ).with_fix("Remove the #[allow(...)] and fix the underlying issue instead")
}

fn line_offends(t: &Vec<char>) -> (b: bool)
    ensures
        b == offends(t@),
{
    let found = holds(t, "#[allow(") || holds(t, "#![allow(") || (holds(t, "#[cfg_attr(") && holds(
        t,
        "allow(",
    ));
    if !found {
        return false;
    }
    let lint = lint_name_of(t);
    !is_allowed(&lint)
}

fn push_line_results(
    out: &mut Vec<CheckResult>,
    file_name: &str,
    path: &str,
    t: &Vec<char>,
    line_number: usize,
)
    ensures
        findings(final(out)@) == findings(old(out)@) + line_findings(
            file_name@,
            path@,
            t@,
            line_number,
        ),
{
    if line_offends(t) {
        let r = suppression_result(file_name, path, t, line_number);
        proof {
            lemma_findings_push(out@, r);
        }
        out.push(r);
        assert(findings(out@) =~= findings(old(out)@) + seq![r@]);
    } else {
        assert(findings(out@) + Seq::<Finding>::empty() =~= findings(out@));
    }
}

/// Checks the content of one file for lint suppressions.
pub fn check_file(content: &str, file_name: &str, file_path: &str) -> (r: Vec<CheckResult>)
    ensures
        findings(r@) == file_findings(content@, file_name@, file_path@),
        all_wf(findings(r@)),
{
    proof {
        lemma_file_findings_wf(content@, file_name@, file_path@);
    }
    let text = chars_of(content);
    let ls = split_lines(&text);
    let mut out: Vec<CheckResult> = Vec::new();
    let mut inside: bool = false;
    let mut i: usize = 0;
    assert(findings(out@) =~= Seq::<Finding>::empty());
    while i < ls.len()
        invariant
            i <= ls.len(),
            texts(ls@) == lines(content@),
            findings(out@) + scan_findings(texts(ls@), i as int, inside, file_name@, file_path@)
                == scan_findings(texts(ls@), 0, false, file_name@, file_path@),
        decreases ls.len() - i,
    {
        let t = trimmed(&ls[i]);
        assert(texts(ls@)[i as int] == ls@[i as int]@);
        let ghost before = findings(out@);
        let ghost was = inside;
        let skip = raw_step(&mut inside, &t);
        if !skip && !begins_with(&t, "//") {
            push_line_results(&mut out, file_name, file_path, &t, i + 1);
        }
        assert(findings(out@) + scan_findings(
            texts(ls@),
            i + 1,
            inside,
            file_name@,
            file_path@,
        ) =~= before + scan_findings(texts(ls@), i as int, was, file_name@, file_path@));
        i = i + 1;
    }
    assert(findings(out@) + Seq::<Finding>::empty() =~= findings(out@));
    if out.len() == 0 {
        let mut message = String::new();
        message.append(file_name);
        message.append(": No lint suppressions found");
        assert(message@ =~= file_name@ + ": No lint suppressions found"@);
        let r = CheckResult::pass("clippy-disables", message.as_str()).with_file(file_path);
        out.push(r);
        assert(findings(out@) =~= seq![clean_finding(file_name@, file_path@)]);
    }
    out
}

/// Checks one source file of the snapshot.
pub fn check_entry(e: &Entry) -> (r: Vec<CheckResult>)
    ensures
        findings(r@) == entry_findings(*e),
        all_wf(findings(r@)),
{
    proof {
        lemma_entry_findings_wf(*e);
    }
    match &e.content {
        Ok(c) => check_file(c.as_str(), e.name.as_str(), e.path.as_str()),
        Err(reason) => {
            let mut message = String::new();
            message.append("Read error: ");
            message.append(reason.as_str());
            assert(message@ =~= "Read error: "@ + reason@);
            let r = CheckResult::fail(
                "clippy-disables",
                Severity::Warning,
                message.as_str(),
            ).with_file(e.path.as_str());
            let mut out: Vec<CheckResult> = Vec::new();
            out.push(r);
            assert(findings(out@) =~= seq![unreadable_finding(e.path@, reason@)]);
            out
        },
    }
}

/// Checks all Rust source files of the project for lint suppressions. The
/// findings come file by file in the order of the walk, and within a file
/// in line order.
pub fn check(project: &Project) -> (r: Vec<CheckResult>)
    ensures
        findings(r@) == files_findings(project_sources(*project), 0),
        all_wf(findings(r@)),
{
    let files = source_files(project);
    let mut out: Vec<CheckResult> = Vec::new();
    let mut i: usize = 0;
    assert(findings(out@) =~= Seq::<Finding>::empty());
    while i < files.len()
        invariant
            i <= files.len(),
            findings(out@) + files_findings(targets(files@), i as int) == files_findings(
                targets(files@),
                0,
            ),
        decreases files.len() - i,
    {
        let ghost before = findings(out@);
        let more = check_entry(files[i]);
        crate::checks::append_results(&mut out, more);
        assert(targets(files@)[i as int] == *files@[i as int]);
        assert(findings(out@) + files_findings(targets(files@), i + 1) =~= before
            + files_findings(targets(files@), i as int));
        i = i + 1;
    }
    assert(findings(out@) + Seq::<Finding>::empty() =~= findings(out@));
    proof {
        lemma_files_findings_wf(project_sources(*project), 0);
    }
    out
}

} // verus!
