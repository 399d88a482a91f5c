//! A snapshot of a project tree.
//!
//! The checks never touch the file system. They read a value that records
//! what a directory walk saw: for every entry its name, its printable path,
//! what kind of thing it is, and what came of reading or listing it. The
//! order of a listing is the order in which its entries are visited.

use vstd::prelude::*;
use crate::text::{chars_of, ends_with, is_match_at, same_text};

verus! {

/// One entry of a directory listing, with everything below it.
#[derive(Debug)]
pub struct Entry {
    /// Final component of the path.
    pub name: String,
    /// The path as it is shown in findings.
    pub path: String,
    /// Whether the path, links followed, leads anywhere.
    pub exists: bool,
    /// Whether it leads to a directory.
    pub is_dir: bool,
    /// Whether it leads to a regular file.
    pub is_file: bool,
    /// The resolved identity of the entry (its canonical path), where it
    /// could be resolved. Two entries with the same identity are one file.
    pub identity: Option<String>,
    /// The text read from the entry, or the reason it could not be read.
    pub content: Result<String, String>,
    /// The entries below, or `None` where the entry could not be listed.
    pub listing: Option<Vec<Entry>>,
}

/// The root of a project.
#[derive(Debug)]
pub struct Project {
    /// Final component of the project path, where it has one.
    pub name: Option<String>,
    /// The entries of the project directory, or `None` where it could not
    /// be listed.
    pub listing: Option<Vec<Entry>>,
}

/// The entries of an optional listing; none where there is no listing.
pub open spec fn entries_of(listing: Option<Vec<Entry>>) -> Seq<Entry> {
    match listing {
        Some(kids) => kids@,
        None => Seq::empty(),
    }
}

/// The index of the first entry called `name`, at or after `from`.
pub open spec fn lookup_from(entries: Seq<Entry>, name: Seq<char>, from: int) -> Option<int>
    decreases entries.len() - from,
{
    if from < 0 || from >= entries.len() {
        None
    } else if entries[from].name@ == name {
        Some(from)
    } else {
        lookup_from(entries, name, from + 1)
    }
}

/// The index of the first entry called `name`.
pub open spec fn lookup(entries: Seq<Entry>, name: Seq<char>) -> Option<int> {
    lookup_from(entries, name, 0)
}

/// The index of the first entry called `name` that exists. This is what
/// probing a directory for a name finds.
pub open spec fn probe(entries: Seq<Entry>, name: Seq<char>) -> Option<int> {
    match lookup(entries, name) {
        Some(i) => if entries[i].exists {
            Some(i)
        } else {
            None
        },
        None => None,
    }
}

/// Finds the first entry called `name` that exists.
pub fn probe_entry<'a>(listing: &'a Option<Vec<Entry>>, name: &str) -> (r: Option<&'a Entry>)
    ensures
        match probe(entries_of(*listing), name@) {
            Some(i) => r == Some(&entries_of(*listing)[i]),
            None => r is None,
        },
{
    match listing {
        None => None,
        Some(kids) => {
            let mut i: usize = 0;
            while i < kids.len()
                invariant
                    i <= kids.len(),
                    *listing == Some(*kids),
                    lookup(kids@, name@) == lookup_from(kids@, name@, i as int),
                decreases kids.len() - i,
            {
                let n = chars_of(kids[i].name.as_str());
                if same_text(&n, name) {
                    if kids[i].exists {
                        return Some(&kids[i]);
                    } else {
                        return None;
                    }
                }
                i = i + 1;
            }
            None
        },
    }
}

/// `name` has the extension `ext`: it ends with a dot and `ext`, and has
/// something before that dot. `ext` is meant to hold no dot itself.
pub open spec fn has_extension(name: Seq<char>, ext: Seq<char>) -> bool {
    &&& name.len() >= ext.len() + 2
    &&& name[name.len() - ext.len() - 1] == '.'
    &&& ends_with(name, ext)
}

/// Whether `name` has the extension `ext`.
pub fn name_has_extension(name: &str, ext: &str) -> (b: bool)
    ensures
        b == has_extension(name@, ext@),
{
    let n = chars_of(name);
    let e = chars_of(ext);
    if e.len() > n.len() || n.len() - e.len() < 2 {
        return false;
    }
    let at: usize = n.len() - e.len();
    n[at - 1] == '.' && is_match_at(&n, &e, at)
}

/// The Rust source files found by walking `entries` in order and going
/// into every directory: the entries that are no directory and whose name
/// has the extension `rs`.
pub open spec fn rust_sources(entries: Seq<Entry>, from: int) -> Seq<Entry>
    decreases entries, entries.len() - from,
{
    if 0 <= from < entries.len() {
        rust_sources_at(entries[from]) + rust_sources(entries, from + 1)
    } else {
        Seq::empty()
    }
}

/// The Rust source files found at one entry.
pub open spec fn rust_sources_at(e: Entry) -> Seq<Entry>
    decreases e,
{
    if e.is_dir {
        match e.listing {
            Some(kids) => rust_sources(kids@, 0),
            None => Seq::empty(),
        }
    } else if has_extension(e.name@, "rs"@) {
        seq![e]
    } else {
        Seq::empty()
    }
}

/// The entries that a vector of references points to.
pub open spec fn targets(v: Seq<&Entry>) -> Seq<Entry> {
    v.map_values(|e: &Entry| *e)
}

/// Adds the Rust source files found at `e` to `out`.
pub fn collect_sources<'a>(e: &'a Entry, out: &mut Vec<&'a Entry>)
    ensures
        targets(final(out)@) == targets(old(out)@) + rust_sources_at(*e),
    decreases e,
{
    if e.is_dir {
        match &e.listing {
            Some(kids) => {
                let mut i: usize = 0;
                while i < kids.len()
                    invariant
                        i <= kids.len(),
                        e.listing == Some(*kids),
                        targets(out@) + rust_sources(kids@, i as int) == targets(old(out)@)
                            + rust_sources(kids@, 0),
                    decreases kids.len() - i,
                {
                    assert(e.listing->0 == *kids);
                    assert(decreases_to!(e.listing => e.listing->0));
                    assert(decreases_to!(*kids => kids[i as int]));
                    let ghost before = targets(out@);
                    collect_sources(&kids[i], out);
                    assert(before + rust_sources(kids@, i as int) =~= targets(out@)
                        + rust_sources(kids@, i + 1));
                    i = i + 1;
                }
                assert(targets(out@) + Seq::<Entry>::empty() =~= targets(out@));
            },
            None => {
                assert(targets(out@) + Seq::<Entry>::empty() =~= targets(out@));
            },
        }
    } else if name_has_extension(e.name.as_str(), "rs") {
        out.push(e);
        assert(targets(out@) =~= targets(old(out)@) + seq![*e]);
    } else {
        assert(targets(out@) + Seq::<Entry>::empty() =~= targets(out@));
    }
}

/// The Rust source files of a project: those under its `src` entry, in
/// the order of the walk; none where `src` does not exist.
pub open spec fn project_sources(p: Project) -> Seq<Entry> {
    match probe(entries_of(p.listing), "src"@) {
        Some(i) => rust_sources(entries_of(entries_of(p.listing)[i].listing), 0),
        None => Seq::empty(),
    }
}

/// The Rust source files of a project, in the order of the walk.
pub fn source_files<'a>(p: &'a Project) -> (r: Vec<&'a Entry>)
    ensures
        targets(r@) == project_sources(*p),
{
    let mut out: Vec<&Entry> = Vec::new();
    assert(targets(out@) =~= Seq::<Entry>::empty());
    match probe_entry(&p.listing, "src") {
        None => {},
        Some(src) => {
            match &src.listing {
                None => {},
                Some(kids) => {
                    let mut i: usize = 0;
                    while i < kids.len()
                        invariant
                            i <= kids.len(),
                            targets(out@) + rust_sources(kids@, i as int) == rust_sources(
                                kids@,
                                0,
                            ),
                        decreases kids.len() - i,
                    {
                        let ghost before = targets(out@);
                        collect_sources(&kids[i], &mut out);
                        assert(before + rust_sources(kids@, i as int) =~= targets(out@)
                            + rust_sources(kids@, i + 1));
                        i = i + 1;
                    }
                    assert(targets(out@) + Seq::<Entry>::empty() =~= targets(out@));
                },
            }
        },
    }
    out
}

/// Directories that no check looks into: build output, version control,
/// dependencies and the package cache.
pub open spec fn ignored_name(name: Seq<char>) -> bool {
    name == "target"@ || name == ".git"@ || name == "node_modules"@ || name == ".cargo"@
}

/// Whether a directory of this name is left out by the checks.
pub fn is_ignored_name(name: &str) -> (b: bool)
    ensures
        b == ignored_name(name@),
{
    let n = chars_of(name);
    same_text(&n, "target") || same_text(&n, ".git") || same_text(&n, "node_modules") || same_text(
        &n,
        ".cargo",
    )
}

} // verus!
