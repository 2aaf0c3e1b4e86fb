use kimchi::extract::{extract_links, InputContent};

use kimchi::uri::{Uri, Website};
use kimchi::FileType;

fn uri_texts(uris: &[Uri]) -> Vec<String> {
    let mut out: Vec<String> = uris.iter().map(|u| u.as_str().to_string()).collect();
    out.sort();
    out
}

fn website(s: &str) -> Uri {
    Uri::Website(Website::parse(s).expect("absolute URL"))
}

#[test]
fn test_extract_markdown_links() {
    let input = "This is [a test](https://mechanikadesign.com). This is a relative link test [Relative Link Test](relative_link)";
    let base = Website::parse("https://github.com/wgalyen/kimchi/").unwrap();
    let links = extract_links(
        &InputContent::from_string(input, FileType::Markdown),
        Some(&base),
        &Vec::new(),
    );
    let expected = vec![
        website("https://mechanikadesign.com"),
        website("https://github.com/wgalyen/kimchi/relative_link"),
    ];
    assert_eq!(uri_texts(&links), uri_texts(&expected));
}

#[test]
fn test_extract_html_links() {
    let input = r#"<html>
            <div class="row">
                <a href="https://github.com/wgalyen/kimchi/">
                <a href="blob/master/README.md">README</a>
            </div>
        </html>"#;

    let base = Website::parse("https://github.com/wgalyen/").unwrap();
    let links = extract_links(&InputContent::from_string(input, FileType::HTML), Some(&base), &Vec::new());
    let wanted = website("https://github.com/wgalyen/blob/master/README.md");
    assert!(links.iter().any(|u| *u == wanted));
}

#[test]
fn test_skip_markdown_anchors() {
    let input = "This is [a test](#lol).";
    let links = extract_links(&InputContent::from_string(input, FileType::Markdown), None, &Vec::new());
    assert_eq!(links.len(), 0);
}

#[test]
fn test_skip_markdown_internal_urls() {
    let input = "This is [a test](./internal).";
    let links = extract_links(&InputContent::from_string(input, FileType::Markdown), None, &Vec::new());
    assert_eq!(links.len(), 0);
}

#[test]
fn test_non_markdown_links() {
    let input =
        "https://mechanikadesign.com and https://mechanikadesign.com/foo/bar?lol=1 at test@example.com";
    let links = extract_links(&InputContent::from_string(input, FileType::Plaintext), None, &Vec::new());
    let expected = vec![
        website("https://mechanikadesign.com"),
        website("https://mechanikadesign.com/foo/bar?lol=1"),
        Uri::Mail("test@example.com".to_string()),
    ];
    assert_eq!(uri_texts(&links), uri_texts(&expected));
}

#[test]
fn test_markdown_with_base_spec_example() {
    let input = "See [example](https://mechanikadesign.com) and [rel](relative_link)";
    let base = Website::parse("https://github.com/wgalyen/kimchi/").unwrap();
    let links = extract_links(
        &InputContent::from_string(input, FileType::Markdown),
        Some(&base),
        &Vec::new(),
    );
    let expected = vec![
        website("https://mechanikadesign.com"),
        website("https://github.com/wgalyen/kimchi/relative_link"),
    ];
    assert_eq!(uri_texts(&links), uri_texts(&expected));
}

#[test]
fn test_extract_html5_unquoted_and_unclosed() {
    // unquoted attribute values, an unclosed <link>, and a lowercase
    // doctype must not stop the permissive parser
    let input = "<!doctype html><html><head><link rel=stylesheet href=https://example.com/style.css><body><a href=https://example.com/body/a>x</a><p>see https://example.com/in/text";
    let links = extract_links(&InputContent::from_string(input, FileType::HTML), None, &Vec::new());
    let expected = vec![
        website("https://example.com/style.css"),
        website("https://example.com/body/a"),
        website("https://example.com/in/text"),
    ];
    assert_eq!(uri_texts(&links), uri_texts(&expected));
}

#[test]
fn test_extract_is_idempotent_and_duplicate_free() {
    let input = "See [a](https://a.com) and [again](https://a.com) and https://a.com plus https://b.com/x?y=1";
    let content = InputContent::from_string(input, FileType::Markdown);
    let first = extract_links(&content, None, &Vec::new());
    let second = extract_links(&content, None, &Vec::new());
    assert_eq!(uri_texts(&first), uri_texts(&second));
    let mut texts = uri_texts(&first);
    let before = texts.len();
    texts.dedup();
    assert_eq!(before, texts.len());
    assert_eq!(
        texts,
        uri_texts(&[website("https://a.com"), website("https://b.com/x?y=1")])
    );
}

#[test]
fn test_file_type_from_path() {
    assert_eq!(FileType::from_path("README.md"), FileType::Markdown);
    assert_eq!(FileType::from_path("docs/index.html"), FileType::HTML);
    assert_eq!(FileType::from_path("page.htm"), FileType::HTML);
    assert_eq!(FileType::from_path("notes.txt"), FileType::Plaintext);
    assert_eq!(FileType::from_path("no_extension"), FileType::Plaintext);
    assert_eq!(FileType::from_path(".md"), FileType::Plaintext);
    assert_eq!(FileType::from_path("dir.md/file"), FileType::Plaintext);
    assert_eq!(FileType::default(), FileType::Plaintext);
}

#[test]
fn test_url_normalization_stable() {
    let w = Website::parse("HTTPS://EXAMPLE.com/a/../b#frag").unwrap();
    assert_eq!(w.url, "https://example.com/b");
    assert_eq!(w.scheme, "https");
    assert_eq!(w.host.as_deref(), Some("example.com"));
    let again = w.reparse().unwrap();
    assert_eq!(again.url, w.url);
    assert_eq!(again.scheme, w.scheme);
    assert_eq!(again.host, w.host);
}

#[test]
fn test_url_join_resolves() {
    let w = Website::parse("https://a.com/x/y").unwrap();
    let joined = Website::join(w.url.as_str(), "z").unwrap();
    assert_eq!(joined.url, "https://a.com/x/z");
    let upward = Website::join("https://a.com/x/", "../q").unwrap();
    assert_eq!(upward.url, "https://a.com/q");
}

#[test]
fn test_existing_local_path_is_not_joined() {
    // a relative candidate that names an existing local path is an
    // internal link and is dropped rather than joined with the base
    let input = "See [rel](relative_link)";
    let base = Website::parse("https://github.com/wgalyen/kimchi/").unwrap();
    let content = InputContent::from_string(input, FileType::Markdown);
    let joined = extract_links(&content, Some(&base), &Vec::new());
    assert_eq!(
        uri_texts(&joined),
        uri_texts(&[website("https://github.com/wgalyen/kimchi/relative_link")])
    );
    let local = vec!["relative_link".to_string()];
    let dropped = extract_links(&content, Some(&base), &local);
    assert_eq!(dropped.len(), 0);
}
