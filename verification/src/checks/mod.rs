//! The result model shared by all checks, and the checks themselves.
//!
//! Each check reads a snapshot of the project and returns findings. A
//! finding is described mathematically by its view, a [`Finding`]; the
//! contract of every check says which findings it returns, in which order.

pub mod cache_busting;
pub mod clippy_disables;
pub mod function_count;
pub mod loc_limits;
pub mod module_count;
pub mod rust_edition;
pub mod test_modules;
pub mod test_quality;

use vstd::prelude::*;
use vstd::string::*;
use crate::text::opt_text;

verus! {

/// Severity level of a finding.
#[derive(Debug, Clone, Copy, PartialEq, Eq, Structural)]
pub enum Severity {
    /// Informational: no action required.
    Info,
    /// Should be addressed, but does not block.
    Warning,
    /// Must be fixed before proceeding.
    Error,
}

/// Result of a single check.
#[derive(Debug, Clone)]
pub struct CheckResult {
    /// Name of the check that produced this result.
    pub check_name: String,
    /// Whether the check passed.
    pub passed: bool,
    /// Severity; `Info` exactly for a passing result.
    pub severity: Severity,
    /// Human-readable message.
    pub message: String,
    /// File the result is about, if any.
    pub file: Option<String>,
    /// Line number within `file`, if any.
    pub line: Option<usize>,
    /// Suggested fix, if any.
    pub fix: Option<String>,
}

/// What a [`CheckResult`] says, with its texts as character sequences.
pub struct Finding {
    pub check_name: Seq<char>,
    pub passed: bool,
    pub severity: Severity,
    pub message: Seq<char>,
    pub file: Option<Seq<char>>,
    pub line: Option<usize>,
    pub fix: Option<Seq<char>>,
}

impl Finding {
    /// A passing finding without location or fix.
    pub open spec fn pass(check_name: Seq<char>, message: Seq<char>) -> Finding {
        Finding {
            check_name,
            passed: true,
            severity: Severity::Info,
            message,
            file: None,
            line: None,
            fix: None,
        }
    }

    /// A failing finding without location or fix.
    pub open spec fn fail(check_name: Seq<char>, severity: Severity, message: Seq<char>) -> Finding {
        Finding {
            check_name,
            passed: false,
            severity,
            message,
            file: None,
            line: None,
            fix: None,
        }
    }

    /// The same finding, located in `file`.
    pub open spec fn with_file(self, file: Seq<char>) -> Finding {
        Finding { file: Some(file), ..self }
    }

    /// The same finding, located at `line`.
    pub open spec fn with_line(self, line: usize) -> Finding {
        Finding { line: Some(line), ..self }
    }

    /// The same finding, with a suggested fix.
    pub open spec fn with_fix(self, fix: Seq<char>) -> Finding {
        Finding { fix: Some(fix), ..self }
    }

    /// The invariant of the result model: a passing finding is
    /// informational and a failing one is a warning or an error; the
    /// message is not empty; a line is given only together with a file.
    pub open spec fn wf(self) -> bool {
        &&& self.passed <==> self.severity == Severity::Info
        &&& self.message.len() > 0
        &&& self.line is Some ==> self.file is Some
    }

    /// A failing finding that blocks: one of severity `Error`.
    pub open spec fn is_error(self) -> bool {
        !self.passed && self.severity == Severity::Error
    }
}

impl View for CheckResult {
    type V = Finding;

    open spec fn view(&self) -> Finding {
        Finding {
            check_name: self.check_name@,
            passed: self.passed,
            severity: self.severity,
            message: self.message@,
            file: opt_text(self.file),
            line: self.line,
            fix: opt_text(self.fix),
        }
    }
}

/// The findings held by a sequence of results.
pub open spec fn findings(results: Seq<CheckResult>) -> Seq<Finding> {
    results.map_values(|r: CheckResult| r@)
}

/// Every finding of the sequence satisfies the invariant of the model.
pub open spec fn all_wf(fs: Seq<Finding>) -> bool {
    forall|i: int| 0 <= i < fs.len() ==> (#[trigger] fs[i]).wf()
}

impl CheckResult {
    /// Create a passing result.
    pub fn pass(check_name: &str, message: &str) -> (r: Self)
        ensures
            r@ == Finding::pass(check_name@, message@),
    {
        CheckResult {
            check_name: String::from_str(check_name),
            passed: true,
            severity: Severity::Info,
            message: String::from_str(message),
            file: None,
            line: None,
            fix: None,
        }
    }

    /// Create a failing result.
    pub fn fail(check_name: &str, severity: Severity, message: &str) -> (r: Self)
        ensures
            r@ == Finding::fail(check_name@, severity, message@),
    {
        CheckResult {
            check_name: String::from_str(check_name),
            passed: false,
            severity,
            message: String::from_str(message),
            file: None,
            line: None,
            fix: None,
        }
    }

    /// Add file location to result.
    pub fn with_file(self, file: &str) -> (r: Self)
        ensures
            r@ == self@.with_file(file@),
    {
        let mut r = self;
        r.file = Some(String::from_str(file));
        r
    }

    /// Add line number to result.
    pub fn with_line(self, line: usize) -> (r: Self)
        ensures
            r@ == self@.with_line(line),
    {
        let mut r = self;
        r.line = Some(line);
        r
    }

    /// Add suggested fix to result.
    pub fn with_fix(self, fix: &str) -> (r: Self)
        ensures
            r@ == self@.with_fix(fix@),
    {
        let mut r = self;
        r.fix = Some(String::from_str(fix));
        r
    }
}

/// Appends `more` to `out`, keeping the order of both.
pub fn append_results(out: &mut Vec<CheckResult>, more: Vec<CheckResult>)
    ensures
        findings(final(out)@) == findings(old(out)@) + findings(more@),
{
    let ghost added = more@;
    let mut rest = more;
    out.append(&mut rest);
    assert(findings(out@) =~= findings(old(out)@) + findings(added));
}

/// Adding one result adds its finding at the end.
pub proof fn lemma_findings_push(results: Seq<CheckResult>, r: CheckResult)
    ensures
        findings(results.push(r)) == findings(results).push(r@),
{
    assert(findings(results.push(r)) =~= findings(results).push(r@));
}

/// Configuration for checks with thresholds.
#[derive(Debug, Clone)]
pub struct CheckConfig {
    /// Maximum lines of code per file.
    pub max_file_loc: usize,
    /// Warning threshold for file lines of code.
    pub warn_file_loc: usize,
    /// Maximum functions per module.
    pub max_functions_per_module: usize,
    /// Maximum modules per crate.
    pub max_modules_per_crate: usize,
    /// Required Rust edition.
    pub required_edition: String,
}

impl Default for CheckConfig {
    fn default() -> (r: Self)
        ensures
            r.max_file_loc == 500,
            r.warn_file_loc == 350,
            r.max_functions_per_module == 7,
            r.max_modules_per_crate == 4,
            r.required_edition@ == "2024"@,
    {
        CheckConfig {
            max_file_loc: 500,
            warn_file_loc: 350,
            max_functions_per_module: 7,
            max_modules_per_crate: 4,
            required_edition: String::from_str("2024"),
        }
    }
}

} // verus!
