//! Summaries and text reports of results.

use vstd::prelude::*;
use vstd::string::*;
use crate::checks::{findings, CheckResult, Finding, Severity};
use crate::commands::llm::check_before;
use crate::ollama::{pings, Ping, PingResult};
use crate::text::{decimal, push_decimal};

verus! {

/// The counts of a run.
#[derive(Debug, Clone, Copy, PartialEq, Eq, Structural)]
pub struct Summary {
    /// Number of findings.
    pub total: usize,
    /// Number of passing findings.
    pub passed: usize,
    /// Number of failing findings.
    pub failed: usize,
    /// Number of failing findings of severity `Error`.
    pub errors: usize,
    /// Number of failing findings that are no errors.
    pub warnings: usize,
}

/// The number of passing findings among the first `n`.
pub open spec fn passed_among(fs: Seq<Finding>, n: int) -> nat
    decreases n,
{
    if n <= 0 || n > fs.len() {
        0
    } else {
        passed_among(fs, n - 1) + if fs[n - 1].passed {
            1nat
        } else {
            0nat
        }
    }
}

/// The number of errors among the first `n` findings.
pub open spec fn errors_among(fs: Seq<Finding>, n: int) -> nat
    decreases n,
{
    if n <= 0 || n > fs.len() {
        0
    } else {
        errors_among(fs, n - 1) + if fs[n - 1].is_error() {
            1nat
        } else {
            0nat
        }
    }
}

/// The number of errors of a run.
pub open spec fn error_count(fs: Seq<Finding>) -> nat {
    errors_among(fs, fs.len() as int)
}

/// A run without errors has no finding that is an error, and a run with
/// errors has one.
pub proof fn lemma_errors_among(fs: Seq<Finding>, n: int)
    requires
        0 <= n <= fs.len(),
    ensures
        errors_among(fs, n) > 0 <==> exists|i: int| 0 <= i < n && (#[trigger] fs[i]).is_error(),
        errors_among(fs, n) + passed_among(fs, n) <= n,
    decreases n,
{
    if n > 0 {
        lemma_errors_among(fs, n - 1);
        if fs[n - 1].is_error() {
            assert(fs[n - 1].is_error());
        }
    }
}

/// Counts the findings of a run.
pub fn summarize(results: &Vec<CheckResult>) -> (s: Summary)
    ensures
        s.total == results@.len(),
        s.passed == passed_among(findings(results@), results@.len() as int),
        s.errors == error_count(findings(results@)),
        s.failed == s.total - s.passed,
        s.warnings == s.failed - s.errors,
{
    let ghost fs = findings(results@);
    let mut passed: usize = 0;
    let mut errors: usize = 0;
    let mut i: usize = 0;
    while i < results.len()
        invariant
            i <= results.len(),
            fs == findings(results@),
            passed == passed_among(fs, i as int),
            errors == errors_among(fs, i as int),
            passed + errors <= i,
        decreases results.len() - i,
    {
        let r = &results[i];
        assert(fs[i as int] == r@);
        if r.passed {
            passed = passed + 1;
        } else {
            match r.severity {
                Severity::Error => {
                    errors = errors + 1;
                },
                _ => {},
            }
        }
        i = i + 1;
    }
    let total = results.len();
    let failed = total - passed;
    Summary { total, passed, failed, errors, warnings: failed - errors }
}

/// Whether the run blocks: it has at least one failing finding of
/// severity `Error`. Warnings never block.
pub fn has_errors(results: &Vec<CheckResult>) -> (b: bool)
    ensures
        b == (error_count(findings(results@)) > 0),
        b == exists|i: int|
            0 <= i < results@.len() && (#[trigger] findings(results@)[i]).is_error(),
{
    proof {
        lemma_errors_among(findings(results@), results@.len() as int);
    }
    summarize(results).errors > 0
}

/// The exit status of a run: 1 where it blocks, 0 otherwise.
pub fn exit_status(results: &Vec<CheckResult>) -> (code: i32)
    ensures
        code == if error_count(findings(results@)) > 0 {
            1i32
        } else {
            0i32
        },
{
    if has_errors(results) {
        1
    } else {
        0
    }
}

/// How the report marks a severity.
pub open spec fn severity_mark(s: Severity) -> Seq<char> {
    match s {
        Severity::Info => Seq::empty(),
        Severity::Warning => " [WARN]"@,
        Severity::Error => " [ERROR]"@,
    }
}

/// The heading before the finding at position `i`: the name of its check
/// where that differs from the check of the finding before, after an
/// empty line where a named check came before.
pub open spec fn report_heading(fs: Seq<Finding>, i: int) -> Seq<char> {
    if fs[i].check_name != check_before(fs, i) {
        (if check_before(fs, i).len() > 0 {
            "\n"@
        } else {
            Seq::empty()
        }) + "["@ + fs[i].check_name + "]\n"@
    } else {
        Seq::empty()
    }
}

/// The lines of the report for one finding.
pub open spec fn report_lines(f: Finding) -> Seq<char> {
    "  ["@ + (if f.passed {
        "OK"@
    } else {
        "FAIL"@
    }) + "]"@ + severity_mark(f.severity) + " "@ + f.message + "\n"@ + (match f.fix {
        Some(fix) => "       Fix: "@ + fix + "\n"@,
        None => Seq::empty(),
    })
}

/// The part of the report for the first `n` findings.
pub open spec fn report_body(fs: Seq<Finding>, n: int) -> Seq<char>
    decreases n,
{
    if n <= 0 || n > fs.len() {
        Seq::empty()
    } else {
        report_body(fs, n - 1) + report_heading(fs, n - 1) + report_lines(fs[n - 1])
    }
}

/// The line of the report that gives the counts.
pub open spec fn totals_line(s: Summary) -> Seq<char> {
    "Total: "@ + decimal(s.total as nat) + " | Passed: "@ + decimal(s.passed as nat)
        + " | Failed: "@ + decimal(s.failed as nat) + " ("@ + decimal(s.errors as nat)
        + " errors, "@ + decimal(s.warnings as nat) + " warnings)\n"@
}

/// The text report of a run with the given counts.
pub open spec fn report(fs: Seq<Finding>, s: Summary) -> Seq<char> {
    "Guardian Checklist Results\n\n"@ + report_body(fs, fs.len() as int) + "\n---\n"@
        + totals_line(s)
}

fn push_report_lines(out: &mut String, r: &CheckResult)
    ensures
        final(out)@ == old(out)@ + report_lines(r@),
{
    out.append("  [");
    if r.passed {
        out.append("OK");
    } else {
        out.append("FAIL");
    }
    out.append("]");
    match r.severity {
        Severity::Info => {},
        Severity::Warning => {
            out.append(" [WARN]");
        },
        Severity::Error => {
            out.append(" [ERROR]");
        },
    }
    out.append(" ");
    out.append(r.message.as_str());
    out.append("\n");
    let ghost head = out@;
    assert(head =~= old(out)@ + ("  ["@ + (if r.passed {
        "OK"@
    } else {
        "FAIL"@
    }) + "]"@ + severity_mark(r.severity) + " "@ + r.message@ + "\n"@));
    match &r.fix {
        Some(fix) => {
            out.append("       Fix: ");
            out.append(fix.as_str());
            out.append("\n");
        },
        None => {},
    }
    assert(out@ =~= head + (match r@.fix {
        Some(fix) => "       Fix: "@ + fix + "\n"@,
        None => Seq::empty(),
    }));
    assert(out@ =~= old(out)@ + report_lines(r@));
}

fn push_totals(out: &mut String, s: Summary)
    ensures
        final(out)@ == old(out)@ + totals_line(s),
{
    out.append("Total: ");
    push_decimal(out, s.total as u64);
    out.append(" | Passed: ");
    push_decimal(out, s.passed as u64);
    out.append(" | Failed: ");
    push_decimal(out, s.failed as u64);
    out.append(" (");
    push_decimal(out, s.errors as u64);
    out.append(" errors, ");
    push_decimal(out, s.warnings as u64);
    out.append(" warnings)\n");
    assert(out@ =~= old(out)@ + totals_line(s));
}

fn push_report_heading(out: &mut String, results: &Vec<CheckResult>, i: usize)
    requires
        i < results@.len(),
    ensures
        final(out)@ == old(out)@ + report_heading(findings(results@), i as int),
{
    let ghost fs = findings(results@);
    let r = &results[i];
    assert(fs[i as int] == r@);
    if i == 0 {
        let named = r.check_name.as_str().unicode_len() > 0;
        assert(named == !(r.check_name@ =~= Seq::<char>::empty()));
        if named {
            out.append("[");
            out.append(r.check_name.as_str());
            out.append("]\n");
        }
    } else {
        let previous = &results[i - 1];
        assert(fs[i - 1] == previous@);
        assert(check_before(fs, i as int) == previous.check_name@);
        if !(r.check_name == previous.check_name) {
            if previous.check_name.as_str().unicode_len() > 0 {
                out.append("
");
            }
            out.append("[");
            out.append(r.check_name.as_str());
            out.append("]\n");
        }
    }
    assert(out@ =~= old(out)@ + report_heading(fs, i as int));
}

/// The text report of a run: the findings in their order, each run of
/// findings of one check under the name of the check, then the counts.
pub fn check_results(results: &Vec<CheckResult>) -> (text: String)
    ensures
        text@ == report(findings(results@), summarize_spec(findings(results@))),
{
    let mut text = String::new();
    text.append("Guardian Checklist Results\n\n");
    let ghost fs = findings(results@);
    let mut i: usize = 0;
    assert(text@ =~= "Guardian Checklist Results\n\n"@ + report_body(fs, 0));
    while i < results.len()
        invariant
            i <= results.len(),
            fs == findings(results@),
            text@ == "Guardian Checklist Results\n\n"@ + report_body(fs, i as int),
        decreases results.len() - i,
    {
        assert(fs[i as int] == results@[i as int]@);
        push_report_heading(&mut text, results, i);
        push_report_lines(&mut text, &results[i]);
        assert(text@ =~= "Guardian Checklist Results\n\n"@ + report_body(fs, i + 1));
        i = i + 1;
    }
    text.append("\n---\n");
    let s = summarize(results);
    push_totals(&mut text, s);
    assert(text@ =~= report(fs, s));
    text
}

/// The counts of a run.
pub open spec fn summarize_spec(fs: Seq<Finding>) -> Summary {
    let total = fs.len() as usize;
    let passed = passed_among(fs, fs.len() as int) as usize;
    let errors = error_count(fs) as usize;
    Summary {
        total,
        passed,
        failed: (total - passed) as usize,
        errors,
        warnings: (total - passed - errors) as usize,
    }
}

/// The latency as the report shows it.
pub open spec fn latency_text(latency_ms: Option<u64>) -> Seq<char> {
    match latency_ms {
        Some(ms) => " ("@ + decimal(ms as nat) + "ms)"@,
        None => Seq::empty(),
    }
}

/// The line of the report for one probe result.
pub open spec fn ping_line(p: Ping) -> Seq<char> {
    let fallback = if p.host.fallback {
        " [fallback]"@
    } else {
        Seq::empty()
    };
    if p.reachable {
        "  [UP] "@ + p.host.name@ + latency_text(p.latency_ms) + fallback + "\n"@
    } else {
        "  [DOWN] "@ + p.host.name@ + fallback + " - "@ + (match p.error {
            Some(e) => e,
            None => "unknown error"@,
        }) + "\n"@
    }
}

/// The report for the first `n` probe results.
pub open spec fn ping_report(ps: Seq<Ping>, n: int) -> Seq<char>
    decreases n,
{
    if n <= 0 || n > ps.len() {
        Seq::empty()
    } else {
        ping_report(ps, n - 1) + ping_line(ps[n - 1])
    }
}

fn push_ping_line(out: &mut String, r: &PingResult)
    ensures
        final(out)@ == old(out)@ + ping_line(r@),
{
    if r.reachable {
        out.append("  [UP] ");
        out.append(r.host.name.as_str());
        match r.latency_ms {
            Some(ms) => {
                out.append(" (");
                push_decimal(out, ms);
                out.append("ms)");
            },
            None => {},
        }
        assert(out@ =~= old(out)@ + "  [UP] "@ + r.host.name@ + latency_text(r.latency_ms));
    } else {
        out.append("  [DOWN] ");
        out.append(r.host.name.as_str());
    }
    if r.host.fallback {
        out.append(" [fallback]");
    }
    if !r.reachable {
        out.append(" - ");
        match &r.error {
            Some(e) => {
                out.append(e.as_str());
            },
            None => {
                out.append("unknown error");
            },
        }
    }
    out.append("\n");
    assert(out@ =~= old(out)@ + ping_line(r@));
}

/// The text report of probe results, one line for each in their order.
pub fn ping_results(results: &Vec<PingResult>) -> (text: String)
    ensures
        text@ == ping_report(pings(results@), results@.len() as int),
{
    let mut text = String::new();
    let ghost ps = pings(results@);
    let mut i: usize = 0;
    assert(text@ =~= ping_report(ps, 0));
    while i < results.len()
        invariant
            i <= results.len(),
            ps == pings(results@),
            text@ == ping_report(ps, i as int),
        decreases results.len() - i,
    {
        assert(ps[i as int] == results@[i as int]@);
        push_ping_line(&mut text, &results[i]);
        i = i + 1;
    }
    text
}

/// The number of reachable hosts among the first `n` probe results.
pub open spec fn reachable_among(ps: Seq<Ping>, n: int) -> nat
    decreases n,
{
    if n <= 0 || n > ps.len() {
        0
    } else {
        reachable_among(ps, n - 1) + if ps[n - 1].reachable {
            1nat
        } else {
            0nat
        }
    }
}

/// Counts the reachable hosts.
pub fn count_reachable(results: &Vec<PingResult>) -> (n: usize)
    ensures
        n == reachable_among(pings(results@), results@.len() as int),
{
    let ghost ps = pings(results@);
    let mut n: usize = 0;
    let mut i: usize = 0;
    while i < results.len()
        invariant
            i <= results.len(),
            ps == pings(results@),
            n <= i,
            n == reachable_among(ps, i as int),
        decreases results.len() - i,
    {
        assert(ps[i as int] == results@[i as int]@);
        if results[i].reachable {
            n = n + 1;
        }
        i = i + 1;
    }
    n
}

/// What is shown where there is no host to work with.
pub open spec fn no_hosts_text(json_output: bool, msg: Seq<char>) -> Seq<char> {
    if json_output {
        "{\"error\": \""@ + msg + "\"}"@
    } else {
        msg + ". Add hosts to your guardian.toml file."@
    }
}

/// The message for a pool without a host to work with.
pub fn no_hosts_error(json_output: bool, msg: &str) -> (text: String)
    ensures
        text@ == no_hosts_text(json_output, msg@),
{
    let mut text = String::new();
    if json_output {
        text.append("{\"error\": \"");
        text.append(msg);
        text.append("\"}");
    } else {
        text.append(msg);
        text.append(". Add hosts to your guardian.toml file.");
    }
    assert(text@ =~= no_hosts_text(json_output, msg@));
    text
}

} // verus!
