use guardian_cli::checks::cache_busting::{
    check, check_readme, extract_image_links, has_cache_busting, is_image_path,
    needs_cache_busting,
};
use guardian_cli::checks::Severity;
use guardian_cli::project::{Entry, Project};

fn file(name: &str, path: &str, content: &str) -> Entry {
    Entry {
        name: name.to_string(),
        path: path.to_string(),
        exists: true,
        is_dir: false,
        is_file: true,
        identity: Some(path.to_string()),
        content: Ok(content.to_string()),
        listing: None,
    }
}

fn dir(name: &str, path: &str, entries: Vec<Entry>) -> Entry {
    Entry {
        name: name.to_string(),
        path: path.to_string(),
        exists: true,
        is_dir: true,
        is_file: false,
        identity: Some(path.to_string()),
        content: Err("Is a directory (os error 21)".to_string()),
        listing: Some(entries),
    }
}

fn project_with_readme(content: &str) -> Project {
    Project {
        name: Some("p".to_string()),
        listing: Some(vec![file("README.md", "/p/README.md", content)]),
    }
}

#[test]
fn test_detects_missing_cache_busting() {
    let p = project_with_readme("\n# My Project\n\n![Screenshot](./images/screenshot.png)\n");
    let results = check(&p);
    let failures: Vec<_> = results.iter().filter(|r| !r.passed).collect();
    assert_eq!(failures.len(), 1);
    assert!(failures[0].message.contains("screenshot.png"));
}

#[test]
fn test_passes_with_cache_busting() {
    let p = project_with_readme("\n# My Project\n\n![Screenshot](./images/screenshot.png?v=1.0.0)\n");
    let results = check(&p);
    assert!(results.iter().all(|r| r.passed));
}

#[test]
fn test_passes_with_timestamp() {
    let p = project_with_readme(
        "\n# My Project\n\n![Screenshot](./images/screenshot.png?ts=1699999999)\n",
    );
    let results = check(&p);
    assert!(results.iter().all(|r| r.passed));
}

#[test]
fn test_ignores_external_urls() {
    let p = project_with_readme("\n# My Project\n\n![Badge](https://example.com/badge.png)\n");
    let results = check(&p);
    assert!(results.iter().all(|r| r.passed));
}

#[test]
fn test_detects_html_img() {
    let p = project_with_readme("\n# My Project\n\n<img src=\"./images/logo.png\" alt=\"Logo\">\n");
    let results = check(&p);
    let failures: Vec<_> = results.iter().filter(|r| !r.passed).collect();
    assert_eq!(failures.len(), 1);
}

#[test]
fn test_extract_image_links() {
    let line = "![Alt](./img.png) and <img src=\"./other.jpg\">";
    let links = extract_image_links(line);
    assert_eq!(links.len(), 2);
    assert!(links.contains(&"./img.png".to_string()));
    assert!(links.contains(&"./other.jpg".to_string()));
}

#[test]
fn links_come_syntax_by_syntax() {
    let line = "<img src='c.gif'> <img src=\"b.svg\"> ![x](a.png) ![y](d.webp)";
    assert_eq!(extract_image_links(line), vec!["a.png", "d.webp", "b.svg", "c.gif"]);
}

#[test]
fn unfinished_references_give_no_link() {
    assert!(extract_image_links("![alt](no-close").is_empty());
    assert!(extract_image_links("![alt] no paren").is_empty());
    assert!(extract_image_links("<img src=\"open").is_empty());
    assert!(extract_image_links("").is_empty());
    assert_eq!(extract_image_links("![a![b](x.png)"), vec!["x.png", "x.png"]);
}

#[test]
fn versioned_and_plain_links() {
    assert!(!needs_cache_busting("./img.png?v=1"));
    assert!(needs_cache_busting("./img.png"));
    assert!(!needs_cache_busting("http://example.com/img.png"));
    assert!(!needs_cache_busting("https://example.com/img.png"));
    assert!(!needs_cache_busting("https://example.com/img.png?x=1"));
    assert!(!needs_cache_busting("./notes.txt"));
}

#[test]
fn every_cache_busting_key_counts() {
    for link in [
        "a.png?v=1",
        "a.png?ts=1",
        "a.png?t=1",
        "a.png?version=2",
        "a.png?hash=abc",
        "a.png?w=10&v=1",
        "a.png?w=10&ts=1",
        "a.png?w=10&t=1",
        "a.png?w=10&version=3",
        "a.png?w=1&hash=x",
        "./img.png?w=10&hash=abc",
    ] {
        assert!(has_cache_busting(link), "{}", link);
        assert!(!needs_cache_busting(link), "{}", link);
    }
    for link in ["a.png", "a.png?w=10", "a.png?w=10&x=1", "a.png?v"] {
        assert!(!has_cache_busting(link), "{}", link);
    }
}

#[test]
fn extensions_are_matched_in_lower_case() {
    assert!(needs_cache_busting("./IMG.PNG"));
    assert!(needs_cache_busting("./photo.JpEg"));
    assert!(is_image_path("./a.webp"));
    assert!(!is_image_path("./A.PNG"));
    assert!(!is_image_path("./a.png?v=1"));
    for ext in [".png", ".jpg", ".jpeg", ".gif", ".svg", ".webp"] {
        assert!(is_image_path(&format!("x{}", ext)));
    }
}

#[test]
fn cache_busting_finding_has_exact_texts() {
    let results = check_readme("intro\n![s](./a.png)\n", "README.md", "/p/README.md");
    assert_eq!(results.len(), 1);
    let r = &results[0];
    assert_eq!(r.check_name, "cache-busting");
    assert_eq!(r.severity, Severity::Warning);
    assert_eq!(r.message, "README.md: Image link without cache-busting: ./a.png");
    assert_eq!(r.file, Some("/p/README.md".to_string()));
    assert_eq!(r.line, Some(2));
    assert_eq!(
        r.fix,
        Some("Add cache-busting parameter: ./a.png?v=<version> or ./a.png?ts=<timestamp>".to_string())
    );
}

#[test]
fn clean_document_passes_with_its_name() {
    let results = check_readme("# title\n", "README.md", "/p/README.md");
    assert_eq!(results.len(), 1);
    assert!(results[0].passed);
    assert_eq!(results[0].message, "README.md: All image links have cache-busting");
    assert_eq!(results[0].file, Some("/p/README.md".to_string()));
}

#[test]
fn no_documents_gives_one_pass() {
    let p = Project { name: None, listing: Some(vec![]) };
    let results = check(&p);
    assert_eq!(results.len(), 1);
    assert!(results[0].passed);
    assert_eq!(results[0].message, "No markdown files with images found");
    assert_eq!(results[0].file, None);
}

#[test]
fn documents_are_checked_once_by_identity() {
    let upper = file("README.md", "/p/README.md", "![a](a.png)\n");
    let mut lower = file("readme.md", "/p/readme.md", "![a](a.png)\n");
    lower.identity = Some("/p/README.md".to_string());
    let mut unresolved = file("Readme.md", "/p/Readme.md", "![b](b.png)\n");
    unresolved.identity = None;
    let docs = dir(
        "docs",
        "/p/docs",
        vec![
            file("guide.md", "/p/docs/guide.md", "![g](g.png?v=2)\n"),
            file("notes.txt", "/p/docs/notes.txt", "![n](n.png)\n"),
        ],
    );
    let p = Project { name: None, listing: Some(vec![lower, upper, unresolved, docs]) };
    let results = check(&p);
    let messages: Vec<&str> = results.iter().map(|r| r.message.as_str()).collect();
    assert_eq!(
        messages,
        vec![
            "README.md: Image link without cache-busting: a.png",
            "guide.md: All image links have cache-busting",
        ]
    );
}

#[test]
fn unreadable_document_is_a_warning() {
    let mut readme = file("README.md", "/p/README.md", "");
    readme.content = Err("denied".to_string());
    let p = Project { name: None, listing: Some(vec![readme]) };
    let results = check(&p);
    assert_eq!(results.len(), 1);
    assert_eq!(results[0].severity, Severity::Warning);
    assert_eq!(results[0].message, "Read error: denied");
}

#[test]
fn the_extension_is_the_end_of_the_path() {
    assert!(!needs_cache_busting("./a.png.txt"));
    assert!(!needs_cache_busting("./png/readme"));
    assert!(!needs_cache_busting("./notes.txt?name=a.png"));
    assert!(needs_cache_busting("./a.png?w=10"));
    assert!(needs_cache_busting("./dir.v2/a.JPEG?"));
    assert!(!is_image_path("./a.png.txt"));
    assert!(!is_image_path("png"));
}
