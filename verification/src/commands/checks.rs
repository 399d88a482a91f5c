//! Selection and execution of the checks.

use vstd::prelude::*;
use vstd::string::*;
use crate::checks::{
    all_wf, append_results, cache_busting, clippy_disables, findings, function_count, loc_limits,
    module_count, rust_edition, test_quality, CheckConfig, CheckResult, Finding,
};
use crate::project::Project;
use crate::text::{chars_of, opt_chars, same_text, split, split_on, texts, trim, trimmed};

verus! {

/// Options for the check command.
pub struct CheckOptions<'a> {
    /// Path of the project, as given by the caller.
    pub path: Option<&'a str>,
    /// Comma-separated names of the checks to run; all where absent.
    pub only: Option<&'a str>,
    /// Maximum lines of code per file.
    pub max_loc: usize,
    /// Warning threshold for file lines of code.
    pub warn_loc: usize,
    /// Maximum functions per module.
    pub max_functions: usize,
    /// Maximum modules per crate.
    pub max_modules: usize,
    /// Required Rust edition.
    pub edition: &'a str,
    /// Whether the results are to be shown as JSON.
    pub json_output: bool,
}

/// The filter names `name`: one of its comma-separated pieces, trimmed,
/// is `name`.
pub open spec fn names_check(filter: Seq<char>, name: Seq<char>) -> bool {
    exists|k: int| 0 <= k < split(filter, ',').len() && trim(#[trigger] split(filter, ',')[k]) == name
}

/// The check called `name` runs: there is no filter, or the filter names
/// it.
pub open spec fn selected(only: Option<Seq<char>>, name: Seq<char>) -> bool {
    match only {
        Some(filter) => names_check(filter, name),
        None => true,
    }
}

/// The findings of `found` where the check runs, none where it does not.
pub open spec fn when(run: bool, found: Seq<Finding>) -> Seq<Finding> {
    if run {
        found
    } else {
        Seq::empty()
    }
}

/// The findings of a run: those of the selected checks, one check after
/// the other in a fixed order. The checks of manifests and crates come
/// first (edition, module count), then the checks of source files (line
/// count, function count, tests, lint suppressions), then the check of
/// the documents.
pub open spec fn suite_findings(
    p: Project,
    required_edition: Seq<char>,
    max_loc: nat,
    warn_loc: nat,
    max_functions: nat,
    max_modules: nat,
    only: Option<Seq<char>>,
) -> Seq<Finding> {
    when(selected(only, rust_edition::check_name()), rust_edition::check_findings(p, required_edition))
        + when(
        selected(only, module_count::check_name()),
        module_count::check_findings(p, max_modules),
    ) + when(
        selected(only, loc_limits::check_name()),
        loc_limits::files_findings(crate::project::project_sources(p), max_loc, warn_loc),
    ) + when(
        selected(only, function_count::check_name()),
        function_count::files_findings(crate::project::project_sources(p), max_functions),
    ) + when(
        selected(only, test_quality::check_name()),
        test_quality::files_findings(crate::project::project_sources(p), 0),
    ) + when(
        selected(only, clippy_disables::check_name()),
        clippy_disables::files_findings(crate::project::project_sources(p), 0),
    ) + when(selected(only, cache_busting::check_name()), cache_busting::check_findings(p))
}

/// Two runs over the same project with the same thresholds and the same
/// filter give the same findings, finding by finding.
pub proof fn lemma_runs_agree(
    p: Project,
    required_edition: Seq<char>,
    max_loc: nat,
    warn_loc: nat,
    max_functions: nat,
    max_modules: nat,
    only: Option<Seq<char>>,
    first: Seq<Finding>,
    second: Seq<Finding>,
)
    requires
        first == suite_findings(
            p,
            required_edition,
            max_loc,
            warn_loc,
            max_functions,
            max_modules,
            only,
        ),
        second == suite_findings(
            p,
            required_edition,
            max_loc,
            warn_loc,
            max_functions,
            max_modules,
            only,
        ),
    ensures
        first == second,
{
}

/// A filter that names none of the checks gives no findings.
pub proof fn lemma_unknown_filter_runs_nothing(
    p: Project,
    required_edition: Seq<char>,
    max_loc: nat,
    warn_loc: nat,
    max_functions: nat,
    max_modules: nat,
    filter: Seq<char>,
)
    requires
        !names_check(filter, rust_edition::check_name()),
        !names_check(filter, loc_limits::check_name()),
        !names_check(filter, function_count::check_name()),
        !names_check(filter, module_count::check_name()),
        !names_check(filter, test_quality::check_name()),
        !names_check(filter, clippy_disables::check_name()),
        !names_check(filter, cache_busting::check_name()),
    ensures
        suite_findings(
            p,
            required_edition,
            max_loc,
            warn_loc,
            max_functions,
            max_modules,
            Some(filter),
        ).len() == 0,
{
}

fn filter_names(pieces: &Vec<Vec<char>>, name: &str) -> (b: bool)
    ensures
        b == exists|k: int| 0 <= k < pieces@.len() && trim(#[trigger] texts(pieces@)[k]) == name@,
{
    let mut i: usize = 0;
    while i < pieces.len()
        invariant
            i <= pieces.len(),
            forall|k: int| 0 <= k < i ==> trim(#[trigger] texts(pieces@)[k]) != name@,
        decreases pieces.len() - i,
    {
        assert(texts(pieces@)[i as int] == pieces@[i as int]@);
        let t = trimmed(&pieces[i]);
        if same_text(&t, name) {
            return true;
        }
        i = i + 1;
    }
    false
}

fn should_run(filter: &Option<Vec<Vec<char>>>, only: Ghost<Option<Seq<char>>>, name: &str) -> (b:
    bool)
    requires
        match *filter {
            Some(pieces) => only@ is Some && texts(pieces@) == split(only@->0, ','),
            None => only@ is None,
        },
    ensures
        b == selected(only@, name@),
{
    match filter {
        Some(pieces) => filter_names(pieces, name),
        None => true,
    }
}

fn add_findings(results: &mut Vec<CheckResult>, more: Vec<CheckResult>)
    requires
        all_wf(findings(old(results)@)),
        all_wf(findings(more@)),
    ensures
        findings(final(results)@) == findings(old(results)@) + findings(more@),
        all_wf(findings(final(results)@)),
{
    append_results(results, more);
}

/// Runs the selected checks over the project and returns their findings,
/// check after check in a fixed order. Names in the filter that belong to
/// no check select nothing.
pub fn run_selected_checks(project: &Project, config: &CheckConfig, only: Option<&str>) -> (r: Vec<
    CheckResult,
>)
    ensures
        findings(r@) == suite_findings(
            *project,
            config.required_edition@,
            config.max_file_loc as nat,
            config.warn_file_loc as nat,
            config.max_functions_per_module as nat,
            config.max_modules_per_crate as nat,
            opt_chars(only),
        ),
        all_wf(findings(r@)),
{
    let filter: Option<Vec<Vec<char>>> = match only {
        Some(s) => {
            let text = chars_of(s);
            Some(split_on(&text, ','))
        },
        None => None,
    };
    let ghost chosen = opt_chars(only);
    let ghost none = Seq::<Finding>::empty();
    let mut results: Vec<CheckResult> = Vec::new();
    assert(findings(results@) =~= none);
    let ghost mut e = none;
    if should_run(&filter, Ghost(chosen), "rust-edition") {
        let more = rust_edition::check(project, config.required_edition.as_str());
        proof {
            e = findings(more@);
        }
        add_findings(&mut results, more);
    }
    let ghost mut m = none;
    if should_run(&filter, Ghost(chosen), "module-count") {
        let more = module_count::check(project, config.max_modules_per_crate);
        proof {
            m = findings(more@);
        }
        add_findings(&mut results, more);
    }
    let ghost mut l = none;
    if should_run(&filter, Ghost(chosen), "loc-limits") {
        let more = loc_limits::check(project, config.max_file_loc, config.warn_file_loc);
        proof {
            l = findings(more@);
        }
        add_findings(&mut results, more);
    }
    let ghost mut f = none;
    if should_run(&filter, Ghost(chosen), "function-count") {
        let more = function_count::check(project, config.max_functions_per_module);
        proof {
            f = findings(more@);
        }
        add_findings(&mut results, more);
    }
    let ghost mut t = none;
    if should_run(&filter, Ghost(chosen), "test-quality") {
        let more = test_quality::check(project);
        proof {
            t = findings(more@);
        }
        add_findings(&mut results, more);
    }
    let ghost mut c = none;
    if should_run(&filter, Ghost(chosen), "clippy-disables") {
        let more = clippy_disables::check(project);
        proof {
            c = findings(more@);
        }
        add_findings(&mut results, more);
    }
    let ghost mut b = none;
    if should_run(&filter, Ghost(chosen), "cache-busting") {
        let more = cache_busting::check(project);
        proof {
            b = findings(more@);
        }
        add_findings(&mut results, more);
    }
    assert(findings(results@) =~= e + m + l + f + t + c + b);
    results
}

/// Runs the checks that the options select, with the thresholds that the
/// options give.
pub fn run_checks(opts: CheckOptions<'_>, project: &Project) -> (r: Vec<CheckResult>)
    ensures
        findings(r@) == suite_findings(
            *project,
            opts.edition@,
            opts.max_loc as nat,
            opts.warn_loc as nat,
            opts.max_functions as nat,
            opts.max_modules as nat,
            opt_chars(opts.only),
        ),
        all_wf(findings(r@)),
{
    let config = CheckConfig {
        max_file_loc: opts.max_loc,
        warn_file_loc: opts.warn_loc,
        max_functions_per_module: opts.max_functions,
        max_modules_per_crate: opts.max_modules,
        required_edition: String::from_str(opts.edition),
    };
    run_selected_checks(project, &config, opts.only)
}

} // verus!
