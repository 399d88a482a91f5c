//! What is sent to a model for evaluation, and on which host and model.

use vstd::prelude::*;
use vstd::string::*;
use crate::checks::{findings, CheckResult, Finding, Severity};
use crate::config::{hosts_of, OllamaHost};
use crate::ollama::OllamaModel;
use crate::text::{as_index, chars_of, decimal, opt_chars, opt_text, push_decimal, same_text};

verus! {

/// The opening of the evaluation prompt for the project at `dir`.
pub open spec fn prompt_header(dir: Seq<char>) -> Seq<char> {
    "You are a code quality guardian enforcing development process rules.\n\n"@ + "## Project\n"@
        + "Directory: "@ + dir + "\n\n"@ + "## Check Results\n\n"@
}

/// The task that closes the evaluation prompt.
pub open spec fn prompt_task() -> Seq<char> {
    "\n## Your Task\n\n"@
        + "Analyze the FAILED checks above and provide:\n1. A brief summary of the violations\n2. For each ERROR, explain WHY this violates good architecture/process\n3. Specific, actionable instructions to fix each violation\n4. Priority order for fixes (most critical first)\n\nBe concise and direct. Focus on actionable guidance.\n"@
}

/// How the prompt marks a severity.
pub open spec fn severity_mark(s: Severity) -> Seq<char> {
    match s {
        Severity::Info => Seq::empty(),
        Severity::Warning => " [WARNING]"@,
        Severity::Error => " [ERROR]"@,
    }
}

/// The line of the prompt that states a finding.
pub open spec fn statement_line(f: Finding) -> Seq<char> {
    "- ["@ + (if f.passed {
        "PASS"@
    } else {
        "FAIL"@
    }) + "]"@ + severity_mark(f.severity) + " "@ + f.message + "\n"@
}

/// The lines of the prompt that give the place of a finding.
pub open spec fn place_lines(f: Finding) -> Seq<char> {
    (match f.file {
        Some(file) => "  File: "@ + file + "\n"@,
        None => Seq::empty(),
    }) + (match f.line {
        Some(line) => "  Line: "@ + decimal(line as nat) + "\n"@,
        None => Seq::empty(),
    })
}

/// The line of the prompt that gives the suggested fix of a finding.
pub open spec fn fix_line(f: Finding) -> Seq<char> {
    match f.fix {
        Some(fix) => "  Suggested fix: "@ + fix + "\n"@,
        None => Seq::empty(),
    }
}

/// The lines of the prompt for one finding, without a heading.
pub open spec fn finding_lines(f: Finding) -> Seq<char> {
    statement_line(f) + place_lines(f) + fix_line(f)
}

/// The name of the check of the finding before position `i`; empty
/// before the first finding.
pub open spec fn check_before(fs: Seq<Finding>, i: int) -> Seq<char> {
    if 0 < i <= fs.len() {
        fs[i - 1].check_name
    } else {
        Seq::empty()
    }
}

/// The heading before the finding at position `i`: the name of its check
/// where that differs from the check of the finding before.
pub open spec fn heading(fs: Seq<Finding>, i: int) -> Seq<char> {
    if fs[i].check_name != check_before(fs, i) {
        "### "@ + fs[i].check_name + "\n"@
    } else {
        Seq::empty()
    }
}

/// The part of the prompt for the first `n` findings.
pub open spec fn findings_text(fs: Seq<Finding>, n: int) -> Seq<char>
    decreases n,
{
    if n <= 0 || n > fs.len() {
        Seq::empty()
    } else {
        findings_text(fs, n - 1) + heading(fs, n - 1) + finding_lines(fs[n - 1])
    }
}

/// The evaluation prompt for the findings of a run over the project at
/// `dir`.
pub open spec fn evaluation_prompt(fs: Seq<Finding>, dir: Seq<char>) -> Seq<char> {
    prompt_header(dir) + findings_text(fs, fs.len() as int) + prompt_task()
}

fn push_statement(out: &mut String, r: &CheckResult)
    ensures
        final(out)@ == old(out)@ + statement_line(r@),
{
    out.append("- [");
    if r.passed {
        out.append("PASS");
    } else {
        out.append("FAIL");
    }
    out.append("]");
    match r.severity {
        Severity::Info => {},
        Severity::Warning => {
            out.append(" [WARNING]");
        },
        Severity::Error => {
            out.append(" [ERROR]");
        },
    }
    out.append(" ");
    out.append(r.message.as_str());
    out.append("\n");
    assert(out@ =~= old(out)@ + statement_line(r@));
}

fn push_place(out: &mut String, r: &CheckResult)
    ensures
        final(out)@ == old(out)@ + place_lines(r@),
{
    match &r.file {
        Some(file) => {
            out.append("  File: ");
            out.append(file.as_str());
            out.append("\n");
        },
        None => {},
    }
    let ghost with_file = out@;
    assert(with_file =~= old(out)@ + (match r@.file {
        Some(file) => "  File: "@ + file + "\n"@,
        None => Seq::empty(),
    }));
    match r.line {
        Some(line) => {
            out.append("  Line: ");
            push_decimal(out, line as u64);
            out.append("\n");
        },
        None => {},
    }
    assert(out@ =~= with_file + (match r@.line {
        Some(line) => "  Line: "@ + decimal(line as nat) + "\n"@,
        None => Seq::empty(),
    }));
    assert(out@ =~= old(out)@ + place_lines(r@));
}

fn push_fix(out: &mut String, r: &CheckResult)
    ensures
        final(out)@ == old(out)@ + fix_line(r@),
{
    match &r.fix {
        Some(fix) => {
            out.append("  Suggested fix: ");
            out.append(fix.as_str());
            out.append("\n");
        },
        None => {},
    }
    assert(out@ =~= old(out)@ + fix_line(r@));
}

fn push_finding(out: &mut String, r: &CheckResult)
    ensures
        final(out)@ == old(out)@ + finding_lines(r@),
{
    push_statement(out, r);
    push_place(out, r);
    push_fix(out, r);
    assert(out@ =~= old(out)@ + finding_lines(r@));
}

/// Builds the prompt that asks a model to evaluate the results of a run
/// over the project at `project_dir`. The findings come in their order,
/// each run of findings of one check under a heading with its name.
pub fn build_evaluation_prompt(results: &Vec<CheckResult>, project_dir: &str) -> (prompt: String)
    ensures
        prompt@ == evaluation_prompt(findings(results@), project_dir@),
{
    let mut prompt = String::new();
    prompt.append("You are a code quality guardian enforcing development process rules.\n\n");
    prompt.append("## Project\n");
    prompt.append("Directory: ");
    prompt.append(project_dir);
    prompt.append("\n\n");
    prompt.append("## Check Results\n\n");
    assert(prompt@ =~= prompt_header(project_dir@));
    let ghost fs = findings(results@);
    let mut i: usize = 0;
    assert(prompt@ =~= prompt_header(project_dir@) + findings_text(fs, 0));
    while i < results.len()
        invariant
            i <= results.len(),
            fs == findings(results@),
            prompt@ == prompt_header(project_dir@) + findings_text(fs, i as int),
        decreases results.len() - i,
    {
        let r = &results[i];
        assert(fs[i as int] == r@);
        let ghost before = prompt@;
        let fresh = if i == 0 {
            let named = r.check_name.as_str().unicode_len() > 0;
            assert(named == !(r.check_name@ =~= Seq::<char>::empty()));
            named
        } else {
            assert(fs[i - 1] == results@[i - 1]@);
            assert(check_before(fs, i as int) == results@[i - 1].check_name@);
            !(r.check_name == results[i - 1].check_name)
        };
        assert(fresh == (fs[i as int].check_name != check_before(fs, i as int)));
        if fresh {
            prompt.append("### ");
            prompt.append(r.check_name.as_str());
            prompt.append("\n");
        }
        assert(prompt@ =~= before + heading(fs, i as int));
        push_finding(&mut prompt, r);
        assert(prompt@ =~= prompt_header(project_dir@) + findings_text(fs, i + 1));
        i = i + 1;
    }
    prompt.append("\n## Your Task\n\n");
    prompt.append(
        "Analyze the FAILED checks above and provide:\n1. A brief summary of the violations\n2. For each ERROR, explain WHY this violates good architecture/process\n3. Specific, actionable instructions to fix each violation\n4. Priority order for fixes (most critical first)\n\nBe concise and direct. Focus on actionable guidance.\n",
    );
    assert(prompt@ =~= evaluation_prompt(fs, project_dir@));
    prompt
}

/// The position of the first host called `name`, at or after `from`.
pub open spec fn host_named(hosts: Seq<OllamaHost>, name: Seq<char>, from: int) -> Option<int>
    decreases hosts.len() - from,
{
    if from < 0 || from >= hosts.len() {
        None
    } else if hosts[from].name@ == name {
        Some(from)
    } else {
        host_named(hosts, name, from + 1)
    }
}

/// Finds the host called `name` among the enabled hosts.
pub fn find_host(hosts: &Vec<&OllamaHost>, name: &str) -> (r: Option<usize>)
    ensures
        as_index(r) == host_named(hosts_of(hosts@), name@, 0),
{
    let mut i: usize = 0;
    while i < hosts.len()
        invariant
            i <= hosts.len(),
            host_named(hosts_of(hosts@), name@, 0) == host_named(hosts_of(hosts@), name@, i as int),
        decreases hosts.len() - i,
    {
        assert(hosts_of(hosts@)[i as int] == *hosts@[i as int]);
        let n = chars_of(hosts[i].name.as_str());
        if same_text(&n, name) {
            return Some(i);
        }
        i = i + 1;
    }
    None
}

/// The message for a host that is asked for by name and is not among the
/// enabled hosts.
pub fn host_not_found(name: &str) -> (message: String)
    ensures
        message@ == "Host '"@ + name@ + "' not found or disabled"@,
{
    let mut message = String::new();
    message.append("Host '");
    message.append(name);
    message.append("' not found or disabled");
    assert(message@ =~= "Host '"@ + name@ + "' not found or disabled"@);
    message
}

/// The model to use where that is known without asking the host: the
/// requested model, else the configured default.
pub open spec fn known_model(requested: Option<Seq<char>>, default: Option<Seq<char>>) -> Option<
    Seq<char>,
> {
    match requested {
        Some(m) => Some(m),
        None => default,
    }
}

/// The model to use where that is known without asking the host; `None`
/// where the host has to list its models.
pub fn preferred_model(requested: Option<&str>, default: Option<&str>) -> (r: Option<String>)
    ensures
        opt_text(r) == known_model(opt_chars(requested), opt_chars(default)),
{
    match requested {
        Some(m) => Some(String::from_str(m)),
        None => match default {
            Some(d) => Some(String::from_str(d)),
            None => None,
        },
    }
}

/// The model to use on a host that listed its models: the first of them.
/// A host without models gives the message of the failure.
pub fn first_model(models: &Vec<OllamaModel>, host_name: &str) -> (r: Result<String, String>)
    ensures
        match r {
            Ok(name) => models@.len() > 0 && name@ == models@[0].name@,
            Err(message) => models@.len() == 0 && message@ == "No models available on host "@
                + host_name@,
        },
{
    if models.len() > 0 {
        Ok(models[0].name.clone())
    } else {
        let mut message = String::new();
        message.append("No models available on host ");
        message.append(host_name);
        assert(message@ =~= "No models available on host "@ + host_name@);
        Err(message)
    }
}

} // verus!
