use kimchi::collector::{classify_input, collect_links, file_type_from_content_type, Input};
use kimchi::extract::InputContent;
use kimchi::uri::{Uri, Website};
use kimchi::FileType;

fn uri_texts(uris: &[Uri]) -> Vec<String> {
    let mut out: Vec<String> = uris.iter().map(|u| u.as_str().to_string()).collect();
    out.sort();
    out
}

#[test]
fn test_classify_input() {
    assert!(matches!(classify_input("-"), Input::Stdin));
    assert!(matches!(classify_input("https://example.com/x"), Input::RemoteUrl(_)));
    assert!(matches!(classify_input("docs/**/*.md"), Input::Glob(_)));
    assert!(matches!(classify_input("README.md"), Input::Glob(_)));
}

#[test]
fn test_file_type_from_content_type() {
    assert_eq!(
        file_type_from_content_type("text/html; charset=utf-8"),
        FileType::HTML
    );
    assert_eq!(file_type_from_content_type("text/markdown"), FileType::Markdown);
    assert_eq!(file_type_from_content_type("application/json"), FileType::Plaintext);
}

#[test]
fn test_collect_links_unions_and_dedupes() {
    let contents = vec![
        InputContent::from_string(
            "See [a](https://a.example/) and [b](https://b.example/)",
            FileType::Markdown,
        ),
        InputContent::from_string(
            "https://b.example/ and https://c.example/",
            FileType::Plaintext,
        ),
    ];
    let links = collect_links(&contents, None, &Vec::new());
    let expected = vec![
        Uri::Website(Website::parse("https://a.example/").unwrap()),
        Uri::Website(Website::parse("https://b.example/").unwrap()),
        Uri::Website(Website::parse("https://c.example/").unwrap()),
    ];
    assert_eq!(uri_texts(&links), uri_texts(&expected));
}
