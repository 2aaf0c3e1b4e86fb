use kimchi::checker::{Response, Status};
use kimchi::stats::ResponseStats;
use kimchi::uri::{Uri, Website};

fn website(s: &str) -> Uri {
    Uri::Website(Website::parse(s).expect("absolute URL"))
}

fn sample_stats() -> ResponseStats {
    let mut stats = ResponseStats::new();
    stats.add(Response { uri: website("https://ok.example/"), status: Status::Success(200) });
    stats.add(Response { uri: website("https://moved.example/"), status: Status::Redirected(301) });
    stats.add(Response { uri: Uri::Mail("a@b.example".to_string()), status: Status::Excluded });
    stats.add(Response { uri: website("https://gone.example/"), status: Status::Failed(404) });
    stats.add(Response {
        uri: website("https://broken.example/"),
        status: Status::Error("dns: no \"answer\" \\ at all".to_string()),
    });
    stats.add(Response { uri: website("https://slow.example/"), status: Status::Timeout(None) });
    stats.add(Response {
        uri: website("https://slower.example/"),
        status: Status::Timeout(Some(504)),
    });
    stats
}

#[test]
fn test_stats_counts_and_success() {
    let stats = sample_stats();
    assert_eq!(stats.total, 7);
    assert_eq!(stats.successful, 1);
    assert_eq!(stats.excluded, 1);
    assert_eq!(stats.redirected, 1);
    assert_eq!(stats.failures.len(), 1);
    assert_eq!(stats.errors.len(), 1);
    assert_eq!(stats.timeouts.len(), 2);
    assert!(!stats.is_success());

    let mut clean = ResponseStats::new();
    clean.add(Response { uri: website("https://ok.example/"), status: Status::Success(200) });
    clean.add(Response { uri: Uri::Mail("a@b.example".to_string()), status: Status::Excluded });
    assert!(clean.is_success());
}

#[test]
fn test_stats_json_roundtrip() {
    let stats = sample_stats();
    let text = stats.render_json();
    let back = ResponseStats::parse_json(text.as_str()).expect("own rendering reads back");
    assert_eq!(back.total, stats.total);
    assert_eq!(back.successful, stats.successful);
    assert_eq!(back.excluded, stats.excluded);
    assert_eq!(back.redirected, stats.redirected);
    assert_eq!(back.failures, stats.failures);
    assert_eq!(back.errors, stats.errors);
    assert_eq!(back.timeouts, stats.timeouts);
    assert_eq!(back.render_json(), text);
}

#[test]
fn test_stats_json_shape() {
    let mut stats = ResponseStats::new();
    stats.add(Response { uri: website("https://gone.example/"), status: Status::Failed(404) });
    let text = stats.render_json();
    assert_eq!(
        text,
        "{\"total\":1,\"successful\":0,\"excluded\":0,\"redirected\":0,\
         \"failures\":[{\"uri\":\"https://gone.example/\",\"status_code\":404}],\
         \"errors\":[],\"timeouts\":[]}"
    );
}

#[test]
fn test_stats_json_rejects_other_text() {
    assert!(ResponseStats::parse_json("not json at all").is_none());
    assert!(ResponseStats::parse_json("{\"total\":1}").is_none());
}

#[test]
fn test_stats_json_reader_accepts_shape_not_only_image() {
    // the reader inverts the JSON shape, not just the writer's exact
    // output: a leading zero is read as its value
    let text = "{\"total\":01,\"successful\":0,\"excluded\":0,\"redirected\":0,\
                \"failures\":[],\"errors\":[],\"timeouts\":[]}";
    let parsed = ResponseStats::parse_json(text).expect("shape-conformant text reads");
    assert_eq!(parsed.total, 1);
}
