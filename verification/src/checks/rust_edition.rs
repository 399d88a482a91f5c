//! Check that manifests declare the required Rust edition.

use vstd::prelude::*;
use vstd::string::*;
use crate::checks::{all_wf, findings, CheckResult, Finding, Severity};
use crate::project::{entries_of, ignored_name, is_ignored_name, probe, probe_entry, targets, Entry, Project};
use crate::text::{chars_of, contains, matches_at, opt_chars, same_text};

verus! {

/// A parsed TOML document or a value inside one.
#[verifier::external_type_specification]
#[verifier::external_body]
pub struct ExTomlValue(toml::Value);

/// The error of a TOML parser.
#[verifier::external_type_specification]
#[verifier::external_body]
pub struct ExTomlError(toml::de::Error);

/// What parsing a text as a TOML document gives.
pub uninterp spec fn toml_parse(content: Seq<char>) -> Result<toml::Value, toml::de::Error>;

/// The message of a parser error.
pub uninterp spec fn toml_error_text(e: toml::de::Error) -> Seq<char>;

/// What a table holds under a key; `None` for a missing key and for a
/// value that is no table.
pub uninterp spec fn toml_get(v: toml::Value, key: Seq<char>) -> Option<toml::Value>;

/// The text of a value that is a string; `None` for any other value.
pub uninterp spec fn toml_str(v: toml::Value) -> Option<Seq<char>>;

/// `toml::Value::from_str` parses a text as a TOML document. The result
/// is a function of the text.
#[verifier::external_body]
fn parse_document(content: &str) -> (r: Result<toml::Value, toml::de::Error>)
    ensures
        r == toml_parse(content@),
{
    content.parse::<toml::Value>()
}

/// The `Display` form of `toml::de::Error`, the message of the parser.
#[verifier::external_body]
fn error_text(e: &toml::de::Error) -> (s: String)
    ensures
        s@ == toml_error_text(*e),
{
    e.to_string()
}

/// `toml::Value::get` with a string index looks the key up in a table and
/// gives `None` for a missing key or a value that is no table.
#[verifier::external_body]
fn value_get<'a>(v: &'a toml::Value, key: &str) -> (r: Option<&'a toml::Value>)
    ensures
        match r {
            Some(x) => toml_get(*v, key@) == Some(*x),
            None => toml_get(*v, key@) is None,
        },
{
    v.get(key)
}

/// `toml::Value::as_str` gives the text of a string value and `None` for
/// any other value.
#[verifier::external_body]
fn value_as_str<'a>(v: &'a toml::Value) -> (r: Option<&'a str>)
    ensures
        match r {
            Some(s) => toml_str(*v) == Some(s@),
            None => toml_str(*v) is None,
        },
{
    v.as_str()
}

/// Name of this check.
pub open spec fn check_name() -> Seq<char> {
    "rust-edition"@
}

/// The edition that a manifest declares: the string under `edition` in
/// its `package` table.
pub open spec fn declared_edition(doc: toml::Value) -> Option<Seq<char>> {
    match toml_get(doc, "package"@) {
        Some(package) => match toml_get(package, "edition"@) {
            Some(edition) => toml_str(edition),
            None => None,
        },
        None => None,
    }
}

/// The manifest is the root of a workspace without a package of its own.
pub open spec fn is_workspace_root(doc: toml::Value) -> bool {
    toml_get(doc, "workspace"@) is Some && toml_get(doc, "package"@) is None
}

/// The replacement suggested for a wrong edition.
pub open spec fn replacement(required: Seq<char>) -> Seq<char> {
    "edition = \""@ + required + "\""@
}

/// The finding for a manifest that declares `edition`, where `required`
/// is asked for: a pass for an exact match, an error for another edition,
/// and for a missing one an error unless the manifest is a workspace root.
pub open spec fn edition_finding(
    edition: Option<Seq<char>>,
    workspace_root: bool,
    rel_path: Seq<char>,
    cargo_path: Seq<char>,
    required: Seq<char>,
) -> Finding {
    match edition {
        Some(e) => if e == required {
            Finding::pass(
                check_name(),
                rel_path + ": Using Rust "@ + required + " edition"@,
            ).with_file(cargo_path)
        } else {
            Finding::fail(
                check_name(),
                Severity::Error,
                rel_path + ": Using edition '"@ + e + "', expected '"@ + required + "'"@,
            ).with_file(cargo_path).with_fix(
                "Change edition = \""@ + e + "\" to "@ + replacement(required),
            )
        },
        None => if workspace_root {
            Finding::pass(
                check_name(),
                rel_path + ": Workspace root (no edition required)"@,
            ).with_file(cargo_path)
        } else {
            Finding::fail(
                check_name(),
                Severity::Error,
                rel_path + ": No edition specified"@,
            ).with_file(cargo_path).with_fix(
                "Add "@ + replacement(required) + " to [package] section"@,
            )
        },
    }
}

/// The outcomes of the edition check: the required edition passes; any
/// other edition is an error whose fix holds the literal replacement; a
/// workspace root without an edition passes; any other manifest without an
/// edition is an error.
pub proof fn lemma_edition_outcomes(
    edition: Option<Seq<char>>,
    workspace_root: bool,
    rel_path: Seq<char>,
    cargo_path: Seq<char>,
    required: Seq<char>,
)
    ensures
        edition == Some(required) ==> edition_finding(
            edition,
            workspace_root,
            rel_path,
            cargo_path,
            required,
        ).passed,
        edition is Some && edition != Some(required) ==> {
            let f = edition_finding(edition, workspace_root, rel_path, cargo_path, required);
            f.is_error() && f.fix is Some && contains(f.fix->0, replacement(required))
        },
        edition is None && workspace_root ==> edition_finding(
            edition,
            workspace_root,
            rel_path,
            cargo_path,
            required,
        ).passed,
        edition is None && !workspace_root ==> edition_finding(
            edition,
            workspace_root,
            rel_path,
            cargo_path,
            required,
        ).is_error(),
        edition_finding(edition, workspace_root, rel_path, cargo_path, required).wf(),
{
    reveal_strlit(": Using Rust ");
    reveal_strlit(": Using edition '");
    reveal_strlit(": Workspace root (no edition required)");
    reveal_strlit(": No edition specified");
    if edition is Some && edition != Some(required) {
        let e = edition->0;
        let f = edition_finding(edition, workspace_root, rel_path, cargo_path, required);
        let head = "Change edition = \""@ + e + "\" to "@;
        let fix = f.fix->0;
        assert(fix =~= head + replacement(required));
        assert(fix.subrange(head.len() as int, (head.len() + replacement(required).len()) as int)
            =~= replacement(required));
        assert(matches_at(fix, replacement(required), head.len() as int));
    }
}

fn matching_result(rel_path: &str, cargo_path: &str, required: &str) -> (r: CheckResult)
    ensures
        r@ == edition_finding(Some(required@), false, rel_path@, cargo_path@, required@),
{
    let mut message = String::new();
    message.append(rel_path);
    message.append(": Using Rust ");
    message.append(required);
    message.append(" edition");
    assert(message@ =~= rel_path@ + ": Using Rust "@ + required@ + " edition"@);
    CheckResult::pass("rust-edition", message.as_str()).with_file(cargo_path)
}

fn mismatch_result(e: &str, rel_path: &str, cargo_path: &str, required: &str) -> (r: CheckResult)
    requires
        e@ != required@,
    ensures
        r@ == edition_finding(Some(e@), false, rel_path@, cargo_path@, required@),
{
    let mut message = String::new();
    message.append(rel_path);
    message.append(": Using edition '");
    message.append(e);
    message.append("', expected '");
    message.append(required);
    message.append("'");
    assert(message@ =~= rel_path@ + ": Using edition '"@ + e@ + "', expected '"@ + required@
        + "'"@);
    let mut fix = String::new();
    fix.append("Change edition = \"");
    fix.append(e);
    fix.append("\" to ");
    fix.append("edition = \"");
    fix.append(required);
    fix.append("\"");
    assert(fix@ =~= "Change edition = \""@ + e@ + "\" to "@ + replacement(required@));
    CheckResult::fail("rust-edition", Severity::Error, message.as_str()).with_file(
        cargo_path,
    ).with_fix(fix.as_str())
}

fn missing_result(workspace_root: bool, rel_path: &str, cargo_path: &str, required: &str) -> (r:
    CheckResult)
    ensures
        r@ == edition_finding(None, workspace_root, rel_path@, cargo_path@, required@),
{
    let mut message = String::new();
    message.append(rel_path);
    if workspace_root {
        message.append(": Workspace root (no edition required)");
        assert(message@ =~= rel_path@ + ": Workspace root (no edition required)"@);
        CheckResult::pass("rust-edition", message.as_str()).with_file(cargo_path)
    } else {
        message.append(": No edition specified");
        assert(message@ =~= rel_path@ + ": No edition specified"@);
        let mut fix = String::new();
        fix.append("Add ");
        fix.append("edition = \"");
        fix.append(required);
        fix.append("\"");
        fix.append(" to [package] section");
        assert(fix@ =~= "Add "@ + replacement(required@) + " to [package] section"@);
        CheckResult::fail("rust-edition", Severity::Error, message.as_str()).with_file(
            cargo_path,
        ).with_fix(fix.as_str())
    }
}

/// Decides the finding for a manifest from what it declares.
pub fn edition_result(
    edition: Option<&str>,
    workspace_root: bool,
    rel_path: &str,
    cargo_path: &str,
    required: &str,
) -> (r: CheckResult)
    ensures
        r@ == edition_finding(opt_chars(edition), workspace_root, rel_path@, cargo_path@, required@),
        r@.wf(),
{
    proof {
        lemma_edition_outcomes(
            opt_chars(edition),
            workspace_root,
            rel_path@,
            cargo_path@,
            required@,
        );
    }
    match edition {
        Some(e) => {
            let found = chars_of(e);
            if same_text(&found, required) {
                matching_result(rel_path, cargo_path, required)
            } else {
                mismatch_result(e, rel_path, cargo_path, required)
            }
        },
        None => missing_result(workspace_root, rel_path, cargo_path, required),
    }
}

/// The finding for a parsed manifest.
pub open spec fn document_finding(
    doc: toml::Value,
    rel_path: Seq<char>,
    cargo_path: Seq<char>,
    required: Seq<char>,
) -> Finding {
    edition_finding(declared_edition(doc), is_workspace_root(doc), rel_path, cargo_path, required)
}

/// Checks the edition that a parsed manifest declares.
pub fn check_edition_value(doc: &toml::Value, rel_path: &str, cargo_path: &str, required: &str) -> (r:
    CheckResult)
    ensures
        r@ == document_finding(*doc, rel_path@, cargo_path@, required@),
        r@.wf(),
{
    let package = value_get(doc, "package");
    let edition: Option<&str> = match package {
        Some(p) => match value_get(p, "edition") {
            Some(e) => value_as_str(e),
            None => None,
        },
        None => None,
    };
    let workspace_root = value_get(doc, "workspace").is_some() && package.is_none();
    edition_result(edition, workspace_root, rel_path, cargo_path, required)
}

/// The finding for a manifest that could not be read.
pub open spec fn unreadable_finding(path: Seq<char>, reason: Seq<char>) -> Finding {
    Finding::fail(check_name(), Severity::Error, "Failed to read: "@ + reason).with_file(path)
}

/// The finding for a manifest that is no valid TOML.
pub open spec fn invalid_finding(path: Seq<char>, reason: Seq<char>) -> Finding {
    Finding::fail(check_name(), Severity::Error, "Invalid TOML: "@ + reason).with_file(path)
}

/// The finding for a manifest with the given content.
pub open spec fn content_finding(content: Seq<char>, rel_path: Seq<char>, cargo_path: Seq<char>, required: Seq<char>) -> Finding {
    match toml_parse(content) {
        Ok(doc) => document_finding(doc, rel_path, cargo_path, required),
        Err(e) => invalid_finding(cargo_path, toml_error_text(e)),
    }
}

/// The finding for one manifest of the snapshot.
pub open spec fn manifest_finding(manifest: Entry, required: Seq<char>) -> Finding {
    match manifest.content {
        Ok(c) => content_finding(c@, manifest.name@, manifest.path@, required),
        Err(reason) => unreadable_finding(manifest.path@, reason@),
    }
}

/// Checks the content of a manifest: any document that parses is judged
/// by the edition it declares, any other text is an error.
pub fn check_manifest_text(content: &str, rel_path: &str, cargo_path: &str, required: &str) -> (r:
    CheckResult)
    ensures
        r@ == content_finding(content@, rel_path@, cargo_path@, required@),
        r@.wf(),
{
    match parse_document(content) {
        Ok(doc) => check_edition_value(&doc, rel_path, cargo_path, required),
        Err(e) => {
            let reason = error_text(&e);
            let mut message = String::new();
            message.append("Invalid TOML: ");
            message.append(reason.as_str());
            proof {
                reveal_strlit("Invalid TOML: ");
            }
            assert(message@ =~= "Invalid TOML: "@ + reason@);
            CheckResult::fail("rust-edition", Severity::Error, message.as_str()).with_file(
                cargo_path,
            )
        },
    }
}

/// Checks one manifest of the snapshot.
pub fn check_cargo_toml(manifest: &Entry, required_edition: &str) -> (r: CheckResult)
    ensures
        r@ == manifest_finding(*manifest, required_edition@),
        r@.wf(),
{
    match &manifest.content {
        Ok(c) => check_manifest_text(
            c.as_str(),
            manifest.name.as_str(),
            manifest.path.as_str(),
            required_edition,
        ),
        Err(reason) => {
            let mut message = String::new();
            message.append("Failed to read: ");
            message.append(reason.as_str());
            proof {
                reveal_strlit("Failed to read: ");
            }
            assert(message@ =~= "Failed to read: "@ + reason@);
            CheckResult::fail("rust-edition", Severity::Error, message.as_str()).with_file(
                manifest.path.as_str(),
            )
        },
    }
}

/// The manifest of the member at `e`, if it is one: a directory that is
/// not left out and holds a manifest.
pub open spec fn member_manifest(e: Entry) -> Option<Entry> {
    if e.is_dir && !ignored_name(e.name@) {
        match probe(entries_of(e.listing), "Cargo.toml"@) {
            Some(i) => Some(entries_of(e.listing)[i]),
            None => None,
        }
    } else {
        None
    }
}

/// The manifests of the members among the entries from index `from` on.
pub open spec fn member_manifests(entries: Seq<Entry>, from: int) -> Seq<Entry>
    decreases entries.len() - from,
{
    if from < 0 || from >= entries.len() {
        Seq::empty()
    } else {
        let here = match member_manifest(entries[from]) {
            Some(m) => seq![m],
            None => Seq::empty(),
        };
        here + member_manifests(entries, from + 1)
    }
}

/// The manifests of a project: its own, if there is one, then those of
/// the directories directly below it.
pub open spec fn manifests(p: Project) -> Seq<Entry> {
    let entries = entries_of(p.listing);
    let root = match probe(entries, "Cargo.toml"@) {
        Some(i) => seq![entries[i]],
        None => Seq::empty(),
    };
    root + member_manifests(entries, 0)
}

/// Whether a directory of this name is left out when manifests are looked
/// for.
pub fn is_ignored_dir(name: &str) -> (b: bool)
    ensures
        b == ignored_name(name@),
{
    is_ignored_name(name)
}

/// Finds the manifests of the project.
pub fn find_cargo_files<'a>(project: &'a Project) -> (r: Vec<&'a Entry>)
    ensures
        targets(r@) == manifests(*project),
{
    let mut out: Vec<&Entry> = Vec::new();
    assert(targets(out@) =~= Seq::<Entry>::empty());
    match probe_entry(&project.listing, "Cargo.toml") {
        Some(m) => {
            out.push(m);
            assert(targets(out@) =~= seq![*m]);
        },
        None => {},
    }
    let ghost root = targets(out@);
    match &project.listing {
        None => {
            assert(root + Seq::<Entry>::empty() =~= root);
        },
        Some(kids) => {
            let mut i: usize = 0;
            while i < kids.len()
                invariant
                    i <= kids.len(),
                    targets(out@) + member_manifests(kids@, i as int) == root + member_manifests(
                        kids@,
                        0,
                    ),
                decreases kids.len() - i,
            {
                let ghost before = targets(out@);
                let e = &kids[i];
                if e.is_dir && !is_ignored_dir(e.name.as_str()) {
                    match probe_entry(&e.listing, "Cargo.toml") {
                        Some(m) => {
                            out.push(m);
                            assert(targets(out@) =~= before + seq![*m]);
                        },
                        None => {},
                    }
                }
                assert(targets(out@) + member_manifests(kids@, i + 1) =~= before
                    + member_manifests(kids@, i as int));
                i = i + 1;
            }
            assert(targets(out@) + Seq::<Entry>::empty() =~= targets(out@));
        },
    }
    out
}

/// The finding for a project without any manifest.
pub open spec fn no_manifest_finding() -> Finding {
    Finding::fail(check_name(), Severity::Warning, "No Cargo.toml found"@)
}

/// The findings of the check: one for each manifest, in the order in
/// which they are found, or a warning where there is none.
pub open spec fn check_findings(p: Project, required: Seq<char>) -> Seq<Finding> {
    if manifests(p).len() == 0 {
        seq![no_manifest_finding()]
    } else {
        Seq::new(manifests(p).len(), |i: int| manifest_finding(manifests(p)[i], required))
    }
}

/// Checks the edition declared by every manifest of the project.
pub fn check(project: &Project, required_edition: &str) -> (r: Vec<CheckResult>)
    ensures
        findings(r@) == check_findings(*project, required_edition@),
        all_wf(findings(r@)),
{
    let files = find_cargo_files(project);
    let mut out: Vec<CheckResult> = Vec::new();
    if files.len() == 0 {
        let r = CheckResult::fail("rust-edition", Severity::Warning, "No Cargo.toml found");
        out.push(r);
        proof {
            reveal_strlit("No Cargo.toml found");
        }
        assert(findings(out@) =~= seq![no_manifest_finding()]);
        return out;
    }
    let mut i: usize = 0;
    while i < files.len()
        invariant
            i <= files.len(),
            out@.len() == i,
            forall|k: int|
                0 <= k < i ==> (#[trigger] out@[k])@ == manifest_finding(
                    targets(files@)[k],
                    required_edition@,
                ) && out@[k]@.wf(),
        decreases files.len() - i,
    {
        assert(targets(files@)[i as int] == *files@[i as int]);
        let r = check_cargo_toml(files[i], required_edition);
        out.push(r);
        i = i + 1;
    }
    assert(findings(out@) =~= check_findings(*project, required_edition@));
    out
}

} // verus!
