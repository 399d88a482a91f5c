//! Check that crates don't have too many modules.

use vstd::prelude::*;
use vstd::string::*;
use crate::checks::{all_wf, findings, lemma_findings_push, CheckResult, Finding, Severity};
use crate::project::{
    entries_of, has_extension, ignored_name, is_ignored_name, name_has_extension, probe,
    probe_entry, Entry, Project,
};
use crate::text::{chars_of, contains, decimal, ends_with, finishes_with, holds, push_decimal, same_text};

verus! {

/// Name of this check.
pub open spec fn check_name() -> Seq<char> {
    "module-count"@
}

/// The file is an entry point or an aggregator, not a module of its own.
pub open spec fn is_entry_point(name: Seq<char>) -> bool {
    name == "main.rs"@ || name == "lib.rs"@ || name == "mod.rs"@
}

/// Some entry from index `from` on has the extension `rs`.
pub open spec fn has_rust_file(entries: Seq<Entry>, from: int) -> bool
    decreases entries.len() - from,
{
    if from < 0 || from >= entries.len() {
        false
    } else {
        has_extension(entries[from].name@, "rs"@) || has_rust_file(entries, from + 1)
    }
}

/// The entry of a source directory is a module: a source file that is no
/// entry point, or a directory that holds an aggregator file or any source
/// file.
pub open spec fn is_module(e: Entry) -> bool {
    if e.is_file && ends_with(e.name@, ".rs"@) {
        !is_entry_point(e.name@)
    } else if e.is_dir {
        probe(entries_of(e.listing), "mod.rs"@) is Some || has_rust_file(entries_of(e.listing), 0)
    } else {
        false
    }
}

/// The number of modules among the first `n` entries.
pub open spec fn modules_among(entries: Seq<Entry>, n: int) -> nat
    decreases n,
{
    if n <= 0 || n > entries.len() {
        0
    } else {
        modules_among(entries, n - 1) + if is_module(entries[n - 1]) {
            1nat
        } else {
            0nat
        }
    }
}

/// The number of modules of a source directory; none where it cannot be
/// listed.
pub open spec fn module_count(src: Entry) -> nat {
    modules_among(entries_of(src.listing), entries_of(src.listing).len() as int)
}

/// Whether a directory of this name is left out when the members of a
/// workspace are looked for.
pub fn is_ignored_dir(name: &str) -> (b: bool)
    ensures
        b == ignored_name(name@),
{
    is_ignored_name(name)
}

/// Whether the directory holds a Rust source file directly.
pub fn has_rs_files(dir: &Entry) -> (b: bool)
    ensures
        b == has_rust_file(entries_of(dir.listing), 0),
{
    match &dir.listing {
        None => false,
        Some(kids) => {
            let mut i: usize = 0;
            while i < kids.len()
                invariant
                    i <= kids.len(),
                    dir.listing == Some(*kids),
                    has_rust_file(kids@, 0) == has_rust_file(kids@, i as int),
                decreases kids.len() - i,
            {
                if name_has_extension(kids[i].name.as_str(), "rs") {
                    return true;
                }
                i = i + 1;
            }
            false
        },
    }
}

fn entry_is_module(e: &Entry) -> (b: bool)
    ensures
        b == is_module(*e),
{
    let name = chars_of(e.name.as_str());
    if e.is_file && finishes_with(&name, ".rs") {
        !(same_text(&name, "main.rs") || same_text(&name, "lib.rs") || same_text(&name, "mod.rs"))
    } else if e.is_dir {
        probe_entry(&e.listing, "mod.rs").is_some() || has_rs_files(e)
    } else {
        false
    }
}

/// Counts the modules of a source directory.
pub fn count_modules(src: &Entry) -> (n: usize)
    ensures
        n == module_count(*src),
{
    match &src.listing {
        None => 0,
        Some(kids) => {
            let mut count: usize = 0;
            let mut i: usize = 0;
            while i < kids.len()
                invariant
                    i <= kids.len(),
                    count <= i,
                    count == modules_among(kids@, i as int),
                decreases kids.len() - i,
            {
                if entry_is_module(&kids[i]) {
                    count = count + 1;
                }
                i = i + 1;
            }
            count
        },
    }
}

/// The finding for a crate with `count` modules: an error above `max`, a
/// pass otherwise.
pub open spec fn crate_finding(src_path: Seq<char>, crate_name: Seq<char>, count: nat, max: nat) -> Finding {
    if count > max {
        Finding::fail(
            check_name(),
            Severity::Error,
            crate_name + ": "@ + decimal(count) + " modules exceeds max "@ + decimal(max),
        ).with_file(src_path).with_fix(
            "Consider splitting into multiple crates or reducing module count"@,
        )
    } else {
        Finding::pass(check_name(), crate_name + ": "@ + decimal(count) + " modules (OK)"@).with_file(
            src_path,
        )
    }
}

/// Checks the module count of the crate whose source directory is `src`.
pub fn check_crate(src: &Entry, crate_name: &str, max_modules: usize) -> (r: CheckResult)
    ensures
        r@ == crate_finding(src.path@, crate_name@, module_count(*src), max_modules as nat),
        r@.wf(),
{
    let count = count_modules(src);
    let mut message = String::new();
    message.append(crate_name);
    message.append(": ");
    push_decimal(&mut message, count as u64);
    proof {
        reveal_strlit(": ");
    }
    if count > max_modules {
        message.append(" modules exceeds max ");
        push_decimal(&mut message, max_modules as u64);
        assert(message@ =~= crate_name@ + ": "@ + decimal(count as nat) + " modules exceeds max "@
            + decimal(max_modules as nat));
        CheckResult::fail("module-count", Severity::Error, message.as_str()).with_file(
            src.path.as_str(),
        ).with_fix("Consider splitting into multiple crates or reducing module count")
    } else {
        message.append(" modules (OK)");
        assert(message@ =~= crate_name@ + ": "@ + decimal(count as nat) + " modules (OK)"@);
        CheckResult::pass("module-count", message.as_str()).with_file(src.path.as_str())
    }
}

/// The finding for the member of a workspace found at `e`, if it is one:
/// a directory that is not left out and holds a `src` entry.
pub open spec fn member_finding(e: Entry, max: nat) -> Option<Finding> {
    if e.is_dir && !ignored_name(e.name@) {
        match probe(entries_of(e.listing), "src"@) {
            Some(i) => {
                let src = entries_of(e.listing)[i];
                Some(crate_finding(src.path@, e.name@, module_count(src), max))
            },
            None => None,
        }
    } else {
        None
    }
}

/// The findings for the members among the entries from index `from` on.
pub open spec fn members_findings(entries: Seq<Entry>, from: int, max: nat) -> Seq<Finding>
    decreases entries.len() - from,
{
    if from < 0 || from >= entries.len() {
        Seq::empty()
    } else {
        let here = match member_finding(entries[from], max) {
            Some(f) => seq![f],
            None => Seq::empty(),
        };
        here + members_findings(entries, from + 1, max)
    }
}

/// The finding for the crate at the root of the project, named `name`,
/// if the project has a `src` entry.
pub open spec fn root_findings(p: Project, name: Seq<char>, max: nat) -> Seq<Finding> {
    match probe(entries_of(p.listing), "src"@) {
        Some(i) => {
            let src = entries_of(p.listing)[i];
            seq![crate_finding(src.path@, name, module_count(src), max)]
        },
        None => Seq::empty(),
    }
}

/// The findings for a workspace: the root crate, if there is one, then
/// each member in the order of the listing.
pub open spec fn workspace_findings(p: Project, max: nat) -> Seq<Finding> {
    root_findings(p, "root"@, max) + members_findings(entries_of(p.listing), 0, max)
}

/// The project is a workspace: its manifest can be read and declares one.
pub open spec fn declares_workspace(p: Project) -> bool {
    match probe(entries_of(p.listing), "Cargo.toml"@) {
        Some(i) => match entries_of(p.listing)[i].content {
            Ok(c) => contains(c@, "[workspace]"@),
            Err(_) => false,
        },
        None => false,
    }
}

/// The name under which a single crate is reported: the name of the
/// project directory, or `crate` where it has none.
pub open spec fn crate_name(p: Project) -> Seq<char> {
    match p.name {
        Some(n) => n@,
        None => "crate"@,
    }
}

/// The findings of the check: those of a workspace, or the one of the
/// single crate.
pub open spec fn check_findings(p: Project, max: nat) -> Seq<Finding> {
    if declares_workspace(p) {
        workspace_findings(p, max)
    } else {
        root_findings(p, crate_name(p), max)
    }
}

proof fn lemma_members_findings_wf(entries: Seq<Entry>, from: int, max: nat)
    ensures
        all_wf(members_findings(entries, from, max)),
    decreases entries.len() - from,
{
    reveal_strlit(": ");
    if 0 <= from < entries.len() {
        lemma_members_findings_wf(entries, from + 1, max);
    }
}

/// Every finding of the check satisfies the invariant of the result model.
pub proof fn lemma_check_findings_wf(p: Project, max: nat)
    ensures
        all_wf(check_findings(p, max)),
{
    reveal_strlit(": ");
    lemma_members_findings_wf(entries_of(p.listing), 0, max);
}

fn push_root(out: &mut Vec<CheckResult>, project: &Project, name: &str, max_modules: usize)
    ensures
        findings(final(out)@) == findings(old(out)@) + root_findings(
            *project,
            name@,
            max_modules as nat,
        ),
{
    match probe_entry(&project.listing, "src") {
        Some(src) => {
            let r = check_crate(src, name, max_modules);
            proof {
                lemma_findings_push(out@, r);
            }
            out.push(r);
            assert(findings(out@) =~= findings(old(out)@) + seq![r@]);
        },
        None => {
            assert(findings(out@) + Seq::<Finding>::empty() =~= findings(out@));
        },
    }
}

/// Checks each crate of a workspace and adds the findings to `results`.
pub fn check_workspace(project: &Project, max_modules: usize, results: &mut Vec<CheckResult>)
    ensures
        findings(final(results)@) == findings(old(results)@) + workspace_findings(
            *project,
            max_modules as nat,
        ),
{
    push_root(results, project, "root", max_modules);
    let ghost start = findings(results@);
    match &project.listing {
        None => {
            assert(start + Seq::<Finding>::empty() =~= start);
        },
        Some(kids) => {
            let mut i: usize = 0;
            while i < kids.len()
                invariant
                    i <= kids.len(),
                    findings(results@) + members_findings(kids@, i as int, max_modules as nat)
                        == start + members_findings(kids@, 0, max_modules as nat),
                decreases kids.len() - i,
            {
                let ghost before = findings(results@);
                let e = &kids[i];
                if e.is_dir && !is_ignored_dir(e.name.as_str()) {
                    match probe_entry(&e.listing, "src") {
                        Some(src) => {
                            let r = check_crate(src, e.name.as_str(), max_modules);
                            proof {
                                lemma_findings_push(results@, r);
                            }
                            results.push(r);
                            assert(findings(results@) =~= before + seq![r@]);
                        },
                        None => {},
                    }
                }
                assert(findings(results@) + members_findings(kids@, i + 1, max_modules as nat)
                    =~= before + members_findings(kids@, i as int, max_modules as nat));
                i = i + 1;
            }
            assert(findings(results@) + Seq::<Finding>::empty() =~= findings(results@));
        },
    }
    assert(findings(results@) =~= findings(old(results)@) + workspace_findings(
        *project,
        max_modules as nat,
    ));
}

fn is_workspace(project: &Project) -> (b: bool)
    ensures
        b == declares_workspace(*project),
{
    match probe_entry(&project.listing, "Cargo.toml") {
        Some(manifest) => match &manifest.content {
            Ok(c) => {
                let text = chars_of(c.as_str());
                holds(&text, "[workspace]")
            },
            Err(_) => false,
        },
        None => false,
    }
}

/// Checks the module count of each crate of the project: of the root
/// crate and every member where the project is a workspace, of the single
/// crate otherwise.
pub fn check(project: &Project, max_modules: usize) -> (r: Vec<CheckResult>)
    ensures
        findings(r@) == check_findings(*project, max_modules as nat),
        all_wf(findings(r@)),
{
    let mut out: Vec<CheckResult> = Vec::new();
    assert(findings(out@) =~= Seq::<Finding>::empty());
    if is_workspace(project) {
        check_workspace(project, max_modules, &mut out);
    } else {
        match &project.name {
            Some(n) => push_root(&mut out, project, n.as_str(), max_modules),
            None => push_root(&mut out, project, "crate", max_modules),
        }
    }
    assert(findings(out@) =~= check_findings(*project, max_modules as nat));
    proof {
        lemma_check_findings_wf(*project, max_modules as nat);
    }
    out
}

} // verus!
