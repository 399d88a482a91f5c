//! Check that source files don't exceed line count limits.

use vstd::prelude::*;
use vstd::string::*;
use crate::checks::{all_wf, findings, CheckResult, Finding, Severity};
use crate::project::{project_sources, source_files, targets, Entry, Project};
use crate::text::{chars_of, decimal, lines, push_decimal, split_lines, texts};

verus! {

/// Name of this check.
pub open spec fn check_name() -> Seq<char> {
    "loc-limits"@
}

/// The number of lines of a text.
pub fn line_count(content: &str) -> (n: usize)
    ensures
        n == lines(content@).len(),
{
    let text = chars_of(content);
    let ls = split_lines(&text);
    assert(texts(ls@).len() == ls@.len());
    ls.len()
}

/// The finding for a file of `loc` lines: an error above `max`, a warning
/// above `warn` and up to `max`, a pass otherwise.
pub open spec fn loc_finding(file_name: Seq<char>, path: Seq<char>, loc: nat, max: nat, warn: nat) -> Finding {
    if loc > max {
        Finding::fail(
            check_name(),
            Severity::Error,
            file_name + ": "@ + decimal(loc) + " lines exceeds max "@ + decimal(max),
        ).with_file(path).with_fix(
            "Split "@ + file_name + " into smaller modules (each under "@ + decimal(max)
                + " lines)"@,
        )
    } else if loc > warn {
        Finding::fail(
            check_name(),
            Severity::Warning,
            file_name + ": "@ + decimal(loc) + " lines exceeds warning threshold "@ + decimal(warn),
        ).with_file(path).with_fix("Consider splitting into smaller modules"@)
    } else {
        Finding::pass(check_name(), file_name + ": "@ + decimal(loc) + " lines (OK)"@).with_file(path)
    }
}

/// The thresholds decide the outcome: a file of more than `max` lines is
/// an error; one of more than `warn` and at most `max` lines is a warning;
/// one of at most `warn` and at most `max` lines passes. A file of exactly
/// `warn` lines passes, and one of exactly `max` lines is no error.
pub proof fn lemma_loc_thresholds(
    file_name: Seq<char>,
    path: Seq<char>,
    loc: nat,
    max: nat,
    warn: nat,
)
    ensures
        loc > max ==> loc_finding(file_name, path, loc, max, warn).is_error(),
        warn < loc <= max ==> {
            &&& !loc_finding(file_name, path, loc, max, warn).passed
            &&& loc_finding(file_name, path, loc, max, warn).severity == Severity::Warning
        },
        loc <= warn && loc <= max ==> loc_finding(file_name, path, loc, max, warn).passed,
        loc_finding(file_name, path, loc, max, warn).wf(),
{
    reveal_strlit(": ");
}

/// The finding for a file that could not be read.
pub open spec fn unreadable_finding(path: Seq<char>, reason: Seq<char>) -> Finding {
    Finding::fail(check_name(), Severity::Warning, "Read error: "@ + reason).with_file(path)
}

/// The finding for one source file of the snapshot.
pub open spec fn entry_finding(e: Entry, max: nat, warn: nat) -> Finding {
    match e.content {
        Ok(c) => loc_finding(e.name@, e.path@, lines(c@).len(), max, warn),
        Err(reason) => unreadable_finding(e.path@, reason@),
    }
}

/// The findings for the source files, one for each, in their order.
pub open spec fn files_findings(files: Seq<Entry>, max: nat, warn: nat) -> Seq<Finding> {
    Seq::new(files.len(), |i: int| entry_finding(files[i], max, warn))
}

/// Checks the line count of a file with the given content.
pub fn check_file(content: &str, file_name: &str, file_path: &str, max_loc: usize, warn_loc: usize) -> (r:
    CheckResult)
    ensures
        r@ == loc_finding(
            file_name@,
            file_path@,
            lines(content@).len(),
            max_loc as nat,
            warn_loc as nat,
        ),
        lines(content@).len() > max_loc ==> r@.is_error(),
        warn_loc < lines(content@).len() <= max_loc ==> !r.passed && r.severity
            == Severity::Warning,
        lines(content@).len() <= warn_loc && lines(content@).len() <= max_loc ==> r.passed,
        r@.wf(),
{
    proof {
        lemma_loc_thresholds(
            file_name@,
            file_path@,
            lines(content@).len(),
            max_loc as nat,
            warn_loc as nat,
        );
    }
    let loc = line_count(content);
    let mut message = String::new();
    message.append(file_name);
    message.append(": ");
    push_decimal(&mut message, loc as u64);
    if loc > max_loc {
        message.append(" lines exceeds max ");
        push_decimal(&mut message, max_loc as u64);
        assert(message@ =~= file_name@ + ": "@ + decimal(loc as nat) + " lines exceeds max "@
            + decimal(max_loc as nat));
        let mut fix = String::new();
        fix.append("Split ");
        fix.append(file_name);
        fix.append(" into smaller modules (each under ");
        push_decimal(&mut fix, max_loc as u64);
        fix.append(" lines)");
        assert(fix@ =~= "Split "@ + file_name@ + " into smaller modules (each under "@ + decimal(
            max_loc as nat,
        ) + " lines)"@);
        CheckResult::fail("loc-limits", Severity::Error, message.as_str()).with_file(
            file_path,
        ).with_fix(fix.as_str())
    } else if loc > warn_loc {
        message.append(" lines exceeds warning threshold ");
        push_decimal(&mut message, warn_loc as u64);
        assert(message@ =~= file_name@ + ": "@ + decimal(loc as nat)
            + " lines exceeds warning threshold "@ + decimal(warn_loc as nat));
        CheckResult::fail("loc-limits", Severity::Warning, message.as_str()).with_file(
            file_path,
        ).with_fix("Consider splitting into smaller modules")
    } else {
        message.append(" lines (OK)");
        assert(message@ =~= file_name@ + ": "@ + decimal(loc as nat) + " lines (OK)"@);
        CheckResult::pass("loc-limits", message.as_str()).with_file(file_path)
    }
}

/// Checks one source file of the snapshot.
pub fn check_entry(e: &Entry, max_loc: usize, warn_loc: usize) -> (r: CheckResult)
    ensures
        r@ == entry_finding(*e, max_loc as nat, warn_loc as nat),
        r@.wf(),
{
    proof {
        reveal_strlit("Read error: ");
    }
    match &e.content {
        Ok(c) => check_file(c.as_str(), e.name.as_str(), e.path.as_str(), max_loc, warn_loc),
        Err(reason) => {
            let mut message = String::new();
            message.append("Read error: ");
            message.append(reason.as_str());
            assert(message@ =~= "Read error: "@ + reason@);
            CheckResult::fail("loc-limits", Severity::Warning, message.as_str()).with_file(
                e.path.as_str(),
            )
        },
    }
}

/// Checks the line count of every Rust source file of the project: one
/// finding for each file, in the order of the walk.
pub fn check(project: &Project, max_loc: usize, warn_loc: usize) -> (r: Vec<CheckResult>)
    ensures
        findings(r@) == files_findings(project_sources(*project), max_loc as nat, warn_loc as nat),
        all_wf(findings(r@)),
{
    let files = source_files(project);
    let mut out: Vec<CheckResult> = Vec::new();
    let mut i: usize = 0;
    while i < files.len()
        invariant
            i <= files.len(),
            out@.len() == i,
            forall|k: int|
                0 <= k < i ==> (#[trigger] out@[k])@ == entry_finding(
                    targets(files@)[k],
                    max_loc as nat,
                    warn_loc as nat,
                ),
        decreases files.len() - i,
    {
        assert(targets(files@)[i as int] == *files@[i as int]);
        let r = check_entry(files[i], max_loc, warn_loc);
        out.push(r);
        i = i + 1;
    }
    assert(findings(out@) =~= files_findings(targets(files@), max_loc as nat, warn_loc as nat));
    proof {
        reveal_strlit("Read error: ");
        assert forall|k: int| 0 <= k < findings(out@).len() implies (#[trigger] findings(
            out@,
        )[k]).wf() by {
            let e = project_sources(*project)[k];
            match e.content {
                Ok(c) => {
                    lemma_loc_thresholds(
                        e.name@,
                        e.path@,
                        lines(c@).len(),
                        max_loc as nat,
                        warn_loc as nat,
                    );
                },
                Err(_) => {},
            }
        }
    }
    out
}

} // verus!
