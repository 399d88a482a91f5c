//! Check that image links in documentation carry a cache-busting
//! parameter.

use vstd::prelude::*;
use vstd::string::*;
use crate::checks::{
    all_wf, append_results, findings, lemma_findings_push, CheckResult, Finding, Severity,
};
use crate::project::{
    entries_of, has_extension, name_has_extension, probe, probe_entry, targets, Entry, Project,
};
use crate::text::{
    begins_with, chars_of, contains, ends_with, find_from, finishes_with, find_in, holds, index_of_or_end,
    lemma_find_from, lines, lowercased, matches_at, push_chars, scan_to, slice_of, split_lines,
    starts_with, string_of, texts,
};

verus! {

/// Name of this check.
pub open spec fn check_name() -> Seq<char> {
    "cache-busting"@
}

/// The references of one syntax found in `line` from index `from` on. A
/// reference starts after an `open` token and the next `mid` token behind
/// it, and ends before the next `close` character; the search goes on
/// behind each `open` token, whether a reference was found there or not.
pub open spec fn links_from(
    line: Seq<char>,
    from: int,
    open: Seq<char>,
    mid: Seq<char>,
    close: char,
) -> Seq<Seq<char>>
    decreases line.len() - from,
{
    match find_from(line, open, from) {
        Some(i) => {
            let after = i + open.len();
            if from < after <= line.len() {
                let here = match find_from(line, mid, after) {
                    Some(j) => {
                        let start = j + mid.len();
                        let end = index_of_or_end(line, close, start);
                        if 0 <= start <= end < line.len() {
                            seq![line.subrange(start, end)]
                        } else {
                            Seq::empty()
                        }
                    },
                    None => Seq::empty(),
                };
                here + links_from(line, after, open, mid, close)
            } else {
                Seq::empty()
            }
        },
        None => Seq::empty(),
    }
}

/// The image references of a line: those in markdown image syntax, then
/// the `src` attributes in double quotes, then those in single quotes.
pub open spec fn image_links(line: Seq<char>) -> Seq<Seq<char>> {
    links_from(line, 0, "!["@, "]("@, ')') + links_from(line, 0, "src=\""@, ""@, '"') + links_from(
        line,
        0,
        "src='"@,
        ""@,
        '\'',
    )
}

fn push_links(out: &mut Vec<Vec<char>>, line: &Vec<char>, open: &str, mid: &str, close: char)
    ensures
        texts(final(out)@) == texts(old(out)@) + links_from(line@, 0, open@, mid@, close),
{
    let o = chars_of(open);
    let m = chars_of(mid);
    let mut pos: usize = 0;
    loop
        invariant
            pos <= line.len(),
            o@ == open@,
            m@ == mid@,
            texts(out@) + links_from(line@, pos as int, open@, mid@, close) == texts(old(out)@)
                + links_from(line@, 0, open@, mid@, close),
        decreases line.len() - pos,
    {
        let ghost before = texts(out@);
        proof {
            lemma_find_from(line@, o@, pos as int);
        }
        match find_in(line, &o, pos) {
            None => {
                assert(find_from(line@, o@, pos as int) is None);
                assert(texts(out@) + Seq::<Seq<char>>::empty() =~= texts(out@));
                return ;
            },
            Some(i) => {
                assert(matches_at(line@, o@, i as int));
                assert(i + o.len() <= line.len());
                let after: usize = i + o.len();
                if after <= pos {
                    assert(texts(out@) + Seq::<Seq<char>>::empty() =~= texts(out@));
                    return ;
                }
                proof {
                    lemma_find_from(line@, m@, after as int);
                }
                match find_in(line, &m, after) {
                    Some(j) => {
                        assert(matches_at(line@, m@, j as int));
                        assert(j + m.len() <= line.len());
                        let start: usize = j + m.len();
                        let end = scan_to(line, close, start);
                        if end < line.len() {
                            let link = slice_of(line, start, end);
                            out.push(link);
                            assert(texts(out@) =~= before + seq![
                                line@.subrange(start as int, end as int),
                            ]);
                        }
                    },
                    None => {
                        assert(find_from(line@, m@, after as int) is None);
                    },
                }
                assert(texts(out@) + links_from(line@, after as int, open@, mid@, close) =~= before
                    + links_from(line@, pos as int, open@, mid@, close));
                pos = after;
            },
        }
    }
}

fn links_of(line: &Vec<char>) -> (r: Vec<Vec<char>>)
    ensures
        texts(r@) == image_links(line@),
{
    let mut out: Vec<Vec<char>> = Vec::new();
    assert(texts(out@) =~= Seq::<Seq<char>>::empty());
    push_links(&mut out, line, "![", "](", ')');
    push_links(&mut out, line, "src=\"", "", '"');
    push_links(&mut out, line, "src='", "", '\'');
    assert(texts(out@) =~= image_links(line@));
    out
}

/// The character sequences held by a vector of strings.
pub open spec fn strings(v: Seq<String>) -> Seq<Seq<char>> {
    v.map_values(|s: String| s@)
}

/// Extracts the image references of a line, in markdown image syntax and
/// in HTML `img` tags.
pub fn extract_image_links(line: &str) -> (r: Vec<String>)
    ensures
        strings(r@) == image_links(line@),
{
    let l = chars_of(line);
    let links = links_of(&l);
    let mut out: Vec<String> = Vec::new();
    let mut i: usize = 0;
    while i < links.len()
        invariant
            i <= links.len(),
            out@.len() == i,
            forall|k: int| 0 <= k < i ==> (#[trigger] out@[k])@ == links@[k]@,
        decreases links.len() - i,
    {
        out.push(string_of(&links[i]));
        i = i + 1;
    }
    assert(strings(out@) =~= texts(links@));
    out
}

/// The link carries a cache-busting key: `v`, `ts`, `t`, `version` or
/// `hash`, as the first parameter of the query or as a later one.
pub open spec fn cache_busted(link: Seq<char>) -> bool {
    ||| contains(link, "?v="@)
    ||| contains(link, "?ts="@)
    ||| contains(link, "?t="@)
    ||| contains(link, "?version="@)
    ||| contains(link, "?hash="@)
    ||| contains(link, "&v="@)
    ||| contains(link, "&ts="@)
    ||| contains(link, "&t="@)
    ||| contains(link, "&version="@)
    ||| contains(link, "&hash="@)
}

fn is_cache_busted(link: &Vec<char>) -> (b: bool)
    ensures
        b == cache_busted(link@),
{
    holds(link, "?v=") || holds(link, "?ts=") || holds(link, "?t=") || holds(link, "?version=")
        || holds(link, "?hash=") || holds(link, "&v=") || holds(link, "&ts=") || holds(link, "&t=")
        || holds(link, "&version=") || holds(link, "&hash=")
}

/// Whether the link carries a cache-busting parameter.
pub fn has_cache_busting(link: &str) -> (b: bool)
    ensures
        b == cache_busted(link@),
{
    let l = chars_of(link);
    is_cache_busted(&l)
}

/// The link leaves the project: it begins with `http://` or `https://`.
pub open spec fn external(link: Seq<char>) -> bool {
    starts_with(link, "http://"@) || starts_with(link, "https://"@)
}

/// The path of a link: what stands before its query string.
pub open spec fn path_of(link: Seq<char>) -> Seq<char> {
    link.subrange(0, index_of_or_end(link, '?', 0))
}

/// A lower-case path names an image: it ends with one of the known image
/// extensions.
pub open spec fn names_image(lowered: Seq<char>) -> bool {
    ||| ends_with(lowered, ".png"@)
    ||| ends_with(lowered, ".jpg"@)
    ||| ends_with(lowered, ".jpeg"@)
    ||| ends_with(lowered, ".gif"@)
    ||| ends_with(lowered, ".svg"@)
    ||| ends_with(lowered, ".webp"@)
}

/// Whether a path, given in lower case and without a query string, names
/// an image.
pub fn is_image_path(lowered: &str) -> (b: bool)
    ensures
        b == names_image(lowered@),
{
    let l = chars_of(lowered);
    finishes_with(&l, ".png") || finishes_with(&l, ".jpg") || finishes_with(&l, ".jpeg")
        || finishes_with(&l, ".gif") || finishes_with(&l, ".svg") || finishes_with(&l, ".webp")
}

/// The link is reported: a local reference whose path, in lower case, has
/// the extension of an image, and which has no cache-busting parameter.
pub open spec fn offending(link: Seq<char>) -> bool {
    !external(link) && names_image(lowercased(path_of(link))) && !cache_busted(link)
}

/// A reference that leaves the project is never reported, whatever its
/// query string holds.
pub proof fn lemma_external_links_ignored(link: Seq<char>)
    requires
        starts_with(link, "http://"@) || starts_with(link, "https://"@),
    ensures
        !offending(link),
{
}

/// A reference with a cache-busting parameter is never reported.
pub proof fn lemma_cache_busted_links_pass(link: Seq<char>)
    requires
        cache_busted(link),
    ensures
        !offending(link),
{
}

fn is_offending(link: &Vec<char>) -> (b: bool)
    ensures
        b == offending(link@),
{
    if begins_with(link, "http://") || begins_with(link, "https://") {
        return false;
    }
    let query = scan_to(link, '?', 0);
    let path = slice_of(link, 0, query);
    let s = string_of(&path);
    let lowered = s.as_str().to_lowercase();
    if !is_image_path(lowered.as_str()) {
        return false;
    }
    !is_cache_busted(link)
}

/// Whether an image reference has to be reported: it is local, names an
/// image, and has no cache-busting parameter.
pub fn needs_cache_busting(link: &str) -> (b: bool)
    ensures
        b == offending(link@),
{
    let l = chars_of(link);
    is_offending(&l)
}

/// The finding for an image reference without cache-busting.
pub open spec fn link_finding(
    file_name: Seq<char>,
    path: Seq<char>,
    link: Seq<char>,
    line_number: usize,
) -> Finding {
    Finding::fail(
        check_name(),
        Severity::Warning,
        file_name + ": Image link without cache-busting: "@ + link,
    ).with_file(path).with_line(line_number).with_fix(
        "Add cache-busting parameter: "@ + link + "?v=<version> or "@ + link + "?ts=<timestamp>"@,
    )
}

/// The findings for the references from index `k` on, in their order.
pub open spec fn links_findings(
    links: Seq<Seq<char>>,
    k: int,
    file_name: Seq<char>,
    path: Seq<char>,
    line_number: usize,
) -> Seq<Finding>
    decreases links.len() - k,
{
    if k < 0 || k >= links.len() {
        Seq::empty()
    } else {
        let here = if offending(links[k]) {
            seq![link_finding(file_name, path, links[k], line_number)]
        } else {
            Seq::empty()
        };
        here + links_findings(links, k + 1, file_name, path, line_number)
    }
}

/// The findings for the lines from index `i` on.
pub open spec fn scan_findings(ls: Seq<Seq<char>>, i: int, file_name: Seq<char>, path: Seq<char>) -> Seq<
    Finding,
>
    decreases ls.len() - i,
{
    if i < 0 || i >= ls.len() {
        Seq::empty()
    } else {
        links_findings(image_links(ls[i]), 0, file_name, path, (i + 1) as usize) + scan_findings(
            ls,
            i + 1,
            file_name,
            path,
        )
    }
}

/// The finding for a document whose image links are all in order.
pub open spec fn clean_finding(file_name: Seq<char>, path: Seq<char>) -> Finding {
    Finding::pass(check_name(), file_name + ": All image links have cache-busting"@).with_file(path)
}

/// The finding for a document that could not be read.
pub open spec fn unreadable_finding(path: Seq<char>, reason: Seq<char>) -> Finding {
    Finding::fail(check_name(), Severity::Warning, "Read error: "@ + reason).with_file(path)
}

/// The findings for a document with the given content: one for each
/// offending reference, in the order of the lines, or a single passing one.
pub open spec fn document_findings(content: Seq<char>, file_name: Seq<char>, path: Seq<char>) -> Seq<
    Finding,
> {
    let found = scan_findings(lines(content), 0, file_name, path);
    if found.len() == 0 {
        seq![clean_finding(file_name, path)]
    } else {
        found
    }
}

/// The findings for one document of the snapshot.
pub open spec fn entry_findings(e: Entry) -> Seq<Finding> {
    match e.content {
        Ok(c) => document_findings(c@, e.name@, e.path@),
        Err(reason) => seq![unreadable_finding(e.path@, reason@)],
    }
}

fn link_result(file_name: &str, path: &str, link: &Vec<char>, line_number: usize) -> (r:
    CheckResult)
    ensures
        r@ == link_finding(file_name@, path@, link@, line_number),
{
    let mut message = String::new();
    message.append(file_name);
    message.append(": Image link without cache-busting: ");
    push_chars(&mut message, link);
    assert(message@ =~= file_name@ + ": Image link without cache-busting: "@ + link@);
    let mut fix = String::new();
    fix.append("Add cache-busting parameter: ");
    push_chars(&mut fix, link);
    fix.append("?v=<version> or ");
    push_chars(&mut fix, link);
    fix.append("?ts=<timestamp>");
    assert(fix@ =~= "Add cache-busting parameter: "@ + link@ + "?v=<version> or "@ + link@
        + "?ts=<timestamp>"@);
    CheckResult::fail("cache-busting", Severity::Warning, message.as_str()).with_file(
        path,
    ).with_line(line_number).with_fix(fix.as_str())
}

/// Checks the content of one document.
pub fn check_readme(content: &str, file_name: &str, file_path: &str) -> (r: Vec<CheckResult>)
    ensures
        findings(r@) == document_findings(content@, file_name@, file_path@),
        all_wf(findings(r@)),
{
    proof {
        lemma_document_findings_wf(content@, file_name@, file_path@);
    }
    let text = chars_of(content);
    let ls = split_lines(&text);
    let mut out: Vec<CheckResult> = Vec::new();
    let mut i: usize = 0;
    assert(findings(out@) =~= Seq::<Finding>::empty());
    while i < ls.len()
        invariant
            i <= ls.len(),
            texts(ls@) == lines(content@),
            findings(out@) + scan_findings(texts(ls@), i as int, file_name@, file_path@)
                == scan_findings(texts(ls@), 0, file_name@, file_path@),
        decreases ls.len() - i,
    {
        let line_number: usize = i + 1;
        let links = links_of(&ls[i]);
        assert(texts(ls@)[i as int] == ls@[i as int]@);
        let ghost start = findings(out@);
        let mut k: usize = 0;
        while k < links.len()
            invariant
                k <= links.len(),
                findings(out@) + links_findings(
                    texts(links@),
                    k as int,
                    file_name@,
                    file_path@,
                    line_number,
                ) == start + links_findings(texts(links@), 0, file_name@, file_path@, line_number),
            decreases links.len() - k,
        {
            let ghost before = findings(out@);
            assert(texts(links@)[k as int] == links@[k as int]@);
            if is_offending(&links[k]) {
                let r = link_result(file_name, file_path, &links[k], line_number);
                proof {
                    lemma_findings_push(out@, r);
                }
                out.push(r);
            }
            assert(findings(out@) + links_findings(
                texts(links@),
                k + 1,
                file_name@,
                file_path@,
                line_number,
            ) =~= before + links_findings(
                texts(links@),
                k as int,
                file_name@,
                file_path@,
                line_number,
            ));
            k = k + 1;
        }
        assert(findings(out@) + scan_findings(texts(ls@), i + 1, file_name@, file_path@) =~= start
            + scan_findings(texts(ls@), i as int, file_name@, file_path@));
        i = i + 1;
    }
    assert(findings(out@) + Seq::<Finding>::empty() =~= findings(out@));
    if out.len() == 0 {
        let mut message = String::new();
        message.append(file_name);
        message.append(": All image links have cache-busting");
        assert(message@ =~= file_name@ + ": All image links have cache-busting"@);
        let r = CheckResult::pass("cache-busting", message.as_str()).with_file(file_path);
        out.push(r);
        assert(findings(out@) =~= seq![clean_finding(file_name@, file_path@)]);
    }
    out
}

/// Checks one document of the snapshot.
pub fn check_entry(e: &Entry) -> (r: Vec<CheckResult>)
    ensures
        findings(r@) == entry_findings(*e),
        all_wf(findings(r@)),
{
    proof {
        lemma_entry_findings_wf(*e);
    }
    match &e.content {
        Ok(c) => check_readme(c.as_str(), e.name.as_str(), e.path.as_str()),
        Err(reason) => {
            let mut message = String::new();
            message.append("Read error: ");
            message.append(reason.as_str());
            assert(message@ =~= "Read error: "@ + reason@);
            let r = CheckResult::fail("cache-busting", Severity::Warning, message.as_str()).with_file(
                e.path.as_str(),
            );
            let mut out: Vec<CheckResult> = Vec::new();
            out.push(r);
            assert(findings(out@) =~= seq![unreadable_finding(e.path@, reason@)]);
            out
        },
    }
}

/// The names under which a project's introduction is looked for, in the
/// order in which they are tried.
pub open spec fn readme_names() -> Seq<Seq<char>> {
    seq!["README.md"@, "readme.md"@, "Readme.md"@]
}

/// The entries found under the introduction names from index `k` on.
pub open spec fn readmes(entries: Seq<Entry>, k: int) -> Seq<Entry>
    decreases readme_names().len() - k,
{
    if k < 0 || k >= readme_names().len() {
        Seq::empty()
    } else {
        let here = match probe(entries, readme_names()[k]) {
            Some(i) => seq![entries[i]],
            None => Seq::empty(),
        };
        here + readmes(entries, k + 1)
    }
}

/// The entries from index `from` on whose name has the extension `md`.
pub open spec fn markdown_entries(entries: Seq<Entry>, from: int) -> Seq<Entry>
    decreases entries.len() - from,
{
    if from < 0 || from >= entries.len() {
        Seq::empty()
    } else {
        let here = if has_extension(entries[from].name@, "md"@) {
            seq![entries[from]]
        } else {
            Seq::empty()
        };
        here + markdown_entries(entries, from + 1)
    }
}

/// The documents of a project: its introductions, then the markdown files
/// directly under its `docs` directory.
pub open spec fn documents(p: Project) -> Seq<Entry> {
    let entries = entries_of(p.listing);
    readmes(entries, 0) + match probe(entries, "docs"@) {
        Some(i) => markdown_entries(entries_of(entries[i].listing), 0),
        None => Seq::empty(),
    }
}

/// The findings for the documents from index `from` on, where `seen`
/// holds the identities of the documents checked so far. A document is
/// checked once: one whose identity is unknown or was seen is passed over.
pub open spec fn documents_findings(docs: Seq<Entry>, from: int, seen: Seq<Seq<char>>) -> Seq<
    Finding,
>
    decreases docs.len() - from,
{
    if from < 0 || from >= docs.len() {
        Seq::empty()
    } else {
        match docs[from].identity {
            Some(id) => if seen.contains(id@) {
                documents_findings(docs, from + 1, seen)
            } else {
                entry_findings(docs[from]) + documents_findings(docs, from + 1, seen.push(id@))
            },
            None => documents_findings(docs, from + 1, seen),
        }
    }
}

/// The finding for a project without documents.
pub open spec fn nothing_found() -> Finding {
    Finding::pass(check_name(), "No markdown files with images found"@)
}

/// The findings of the check for a project.
pub open spec fn check_findings(p: Project) -> Seq<Finding> {
    let found = documents_findings(documents(p), 0, Seq::empty());
    if found.len() == 0 {
        seq![nothing_found()]
    } else {
        found
    }
}

proof fn lemma_links_findings_wf(
    links: Seq<Seq<char>>,
    k: int,
    file_name: Seq<char>,
    path: Seq<char>,
    line_number: usize,
)
    ensures
        all_wf(links_findings(links, k, file_name, path, line_number)),
    decreases links.len() - k,
{
    reveal_strlit(": Image link without cache-busting: ");
    if 0 <= k < links.len() {
        lemma_links_findings_wf(links, k + 1, file_name, path, line_number);
    }
}

proof fn lemma_scan_findings_wf(ls: Seq<Seq<char>>, i: int, file_name: Seq<char>, path: Seq<char>)
    ensures
        all_wf(scan_findings(ls, i, file_name, path)),
    decreases ls.len() - i,
{
    if 0 <= i < ls.len() {
        lemma_links_findings_wf(image_links(ls[i]), 0, file_name, path, (i + 1) as usize);
        lemma_scan_findings_wf(ls, i + 1, file_name, path);
    }
}

/// Every finding for the content of a document satisfies the invariant of
/// the result model.
pub proof fn lemma_document_findings_wf(content: Seq<char>, file_name: Seq<char>, path: Seq<char>)
    ensures
        all_wf(document_findings(content, file_name, path)),
{
    reveal_strlit(": All image links have cache-busting");
    lemma_scan_findings_wf(lines(content), 0, file_name, path);
}

/// Every finding for a document satisfies the invariant of the result
/// model.
pub proof fn lemma_entry_findings_wf(e: Entry)
    ensures
        all_wf(entry_findings(e)),
{
    reveal_strlit("Read error: ");
    match e.content {
        Ok(c) => {
            lemma_document_findings_wf(c@, e.name@, e.path@);
        },
        Err(_) => {},
    }
}

proof fn lemma_documents_findings_wf(docs: Seq<Entry>, from: int, seen: Seq<Seq<char>>)
    ensures
        all_wf(documents_findings(docs, from, seen)),
    decreases docs.len() - from,
{
    if 0 <= from < docs.len() {
        lemma_entry_findings_wf(docs[from]);
        match docs[from].identity {
            Some(id) => {
                lemma_documents_findings_wf(docs, from + 1, seen);
                lemma_documents_findings_wf(docs, from + 1, seen.push(id@));
            },
            None => {
                lemma_documents_findings_wf(docs, from + 1, seen);
            },
        }
    }
}

/// Every finding of the check satisfies the invariant of the result model.
pub proof fn lemma_check_findings_wf(p: Project)
    ensures
        all_wf(check_findings(p)),
{
    reveal_strlit("No markdown files with images found");
    lemma_documents_findings_wf(documents(p), 0, Seq::empty());
}

fn names() -> (r: Vec<&'static str>)
    ensures
        r@.len() == readme_names().len(),
        forall|k: int| 0 <= k < r@.len() ==> (#[trigger] r@[k])@ == readme_names()[k],
{
    vec!["README.md", "readme.md", "Readme.md"]
}

fn find_documents<'a>(p: &'a Project) -> (r: Vec<&'a Entry>)
    ensures
        targets(r@) == documents(*p),
{
    let mut out: Vec<&Entry> = Vec::new();
    let candidates = names();
    let ghost entries = entries_of(p.listing);
    let mut k: usize = 0;
    assert(targets(out@) =~= Seq::<Entry>::empty());
    while k < candidates.len()
        invariant
            k <= candidates.len(),
            entries == entries_of(p.listing),
            candidates@.len() == readme_names().len(),
            forall|j: int|
                0 <= j < candidates@.len() ==> (#[trigger] candidates@[j])@ == readme_names()[j],
            targets(out@) + readmes(entries, k as int) == readmes(entries, 0),
        decreases candidates.len() - k,
    {
        let ghost before = targets(out@);
        let name: &str = candidates[k];
        assert(name@ == readme_names()[k as int]);
        match probe_entry(&p.listing, name) {
            Some(e) => {
                out.push(e);
                assert(targets(out@) =~= before + seq![*e]);
            },
            None => {},
        }
        assert(targets(out@) + readmes(entries, k + 1) =~= before + readmes(entries, k as int));
        k = k + 1;
    }
    assert(targets(out@) =~= readmes(entries, 0));
    match probe_entry(&p.listing, "docs") {
        Some(docs) => {
            match &docs.listing {
                Some(kids) => {
                    let mut i: usize = 0;
                    while i < kids.len()
                        invariant
                            i <= kids.len(),
                            targets(out@) + markdown_entries(kids@, i as int) == readmes(entries, 0)
                                + markdown_entries(kids@, 0),
                        decreases kids.len() - i,
                    {
                        let ghost before = targets(out@);
                        if name_has_extension(kids[i].name.as_str(), "md") {
                            out.push(&kids[i]);
                            assert(targets(out@) =~= before + seq![kids@[i as int]]);
                        }
                        assert(targets(out@) + markdown_entries(kids@, i + 1) =~= before
                            + markdown_entries(kids@, i as int));
                        i = i + 1;
                    }
                    assert(targets(out@) =~= readmes(entries, 0) + markdown_entries(kids@, 0));
                },
                None => {
                    assert(targets(out@) =~= readmes(entries, 0) + Seq::<Entry>::empty());
                },
            }
        },
        None => {
            assert(targets(out@) =~= readmes(entries, 0) + Seq::<Entry>::empty());
        },
    }
    out
}

fn was_seen(seen: &Vec<&String>, id: &String) -> (b: bool)
    ensures
        b == identities(seen@).contains(id@),
{
    let mut i: usize = 0;
    while i < seen.len()
        invariant
            i <= seen.len(),
            forall|j: int| 0 <= j < i ==> identities(seen@)[j] != id@,
        decreases seen.len() - i,
    {
        assert(identities(seen@)[i as int] == seen@[i as int]@);
        if *seen[i] == *id {
            return true;
        }
        i = i + 1;
    }
    false
}

/// The identities that a vector of references points to.
pub open spec fn identities(v: Seq<&String>) -> Seq<Seq<char>> {
    v.map_values(|s: &String| s@)
}

/// Checks the documents of the project for image links without
/// cache-busting. Every document is checked once, by its identity, in the
/// order in which the documents are found; a project without documents
/// gives one passing finding.
pub fn check(project: &Project) -> (r: Vec<CheckResult>)
    ensures
        findings(r@) == check_findings(*project),
        all_wf(findings(r@)),
{
    let docs = find_documents(project);
    let mut out: Vec<CheckResult> = Vec::new();
    let mut seen: Vec<&String> = Vec::new();
    let mut i: usize = 0;
    assert(findings(out@) =~= Seq::<Finding>::empty());
    assert(identities(seen@) =~= Seq::<Seq<char>>::empty());
    while i < docs.len()
        invariant
            i <= docs.len(),
            findings(out@) + documents_findings(targets(docs@), i as int, identities(seen@))
                == documents_findings(targets(docs@), 0, Seq::empty()),
        decreases docs.len() - i,
    {
        let ghost before = findings(out@);
        let ghost known = identities(seen@);
        let doc: &Entry = docs[i];
        assert(targets(docs@)[i as int] == *doc);
        match &doc.identity {
            Some(id) => {
                if !was_seen(&seen, id) {
                    seen.push(id);
                    assert(identities(seen@) =~= known.push(id@));
                    let more = check_entry(doc);
                    append_results(&mut out, more);
                }
            },
            None => {},
        }
        assert(findings(out@) + documents_findings(targets(docs@), i + 1, identities(seen@))
            =~= before + documents_findings(targets(docs@), i as int, known));
        i = i + 1;
    }
    assert(findings(out@) + Seq::<Finding>::empty() =~= findings(out@));
    if out.len() == 0 {
        let r = CheckResult::pass("cache-busting", "No markdown files with images found");
        out.push(r);
        assert(findings(out@) =~= seq![nothing_found()]);
    }
    proof {
        lemma_check_findings_wf(*project);
    }
    out
}

} // verus!
