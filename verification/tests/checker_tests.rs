use kimchi::checker::{classify_code, outcome_status, promote, CheckPlan, Checker, HttpOutcome, Status};
use kimchi::excludes::{ExcludeReason, Excludes};
use kimchi::pool::ClientPool;
use kimchi::uri::{Uri, Website};

fn open_policy() -> Excludes {
    Excludes::new(Vec::new(), Vec::new(), None, false, false, false, false).unwrap()
}

fn checker_with(excludes: Excludes, token: Option<String>, accepted: Option<Vec<u16>>) -> Checker {
    Checker::try_new(
        token,
        excludes,
        10,
        "curl/7.71.1".to_string(),
        false,
        Vec::new(),
        "get".to_string(),
        accepted,
        2,
        false,
    )
    .unwrap()
}

fn website(s: &str) -> Uri {
    Uri::Website(Website::parse(s).expect("absolute URL"))
}

#[test]
fn test_is_github() {
    let checker = checker_with(open_policy(), Some("foo".to_string()), None);
    assert_eq!(
        checker
            .extract_github("https://github.com/wgalyen/codesweeper")
            .unwrap(),
        ("wgalyen".to_string(), "codesweeper".to_string())
    );
}

#[test]
fn test_extract_github_needs_two_segments() {
    let checker = checker_with(open_policy(), None, None);
    assert_eq!(checker.extract_github("https://github.com/onlyowner"), None);
    assert_eq!(checker.extract_github("https://example.com/a/b"), None);
}

#[test]
fn test_redirect_code_is_not_success() {
    // with no accepted overrides, a 301 stands as redirected
    assert!(matches!(classify_code(301, &None), Status::Redirected(301)));
    assert!(!classify_code(301, &None).is_success());
}

#[test]
fn test_accepted_code_becomes_success() {
    let accepted = Some(vec![403u16]);
    assert!(matches!(classify_code(403, &accepted), Status::Success(403)));
    assert!(matches!(classify_code(403, &None), Status::Failed(403)));
}

#[test]
fn test_timeout_outcome_classifies_as_timeout() {
    assert!(matches!(
        outcome_status(HttpOutcome::TimedOut, &None),
        Status::Timeout(None)
    ));
}

#[test]
fn test_transport_outcome_classifies_as_error() {
    let s = outcome_status(HttpOutcome::Transport("name not resolved".to_string()), &None);
    assert!(matches!(s, Status::Error(_)));
}

#[test]
fn test_github_fallback_promotion() {
    // a live API answer promotes to a success; anything else leaves
    // the direct status standing
    assert!(matches!(
        promote(Some(200), Status::Failed(429)),
        Status::Success(200)
    ));
    assert!(matches!(
        promote(Some(404), Status::Failed(404)),
        Status::Failed(404)
    ));
    assert!(matches!(
        promote(None, Status::Failed(429)),
        Status::Failed(429)
    ));
}

#[test]
fn test_mail_is_excluded_without_traffic() {
    let checker = checker_with(open_policy(), None, None);
    let response = checker.check(Uri::Mail("test@example.com".to_string()));
    assert!(response.status.is_excluded());
    assert_eq!(response.uri.as_str(), "test@example.com");
}

#[test]
fn test_excluded_pattern_produces_excluded() {
    let policy = Excludes::new(
        Vec::new(),
        vec!["example\\.com".to_string()],
        None,
        false,
        false,
        false,
        false,
    )
    .unwrap();
    let checker = checker_with(policy, None, None);
    let response = checker.check(website("https://example.com/page"));
    assert!(response.status.is_excluded());
}

#[test]
fn test_empty_include_allows_all() {
    let policy = open_policy();
    assert!(!policy.excluded(&website("https://anything.example/x")));
    assert!(!policy.excluded(&Uri::Mail("a@b.example".to_string())));
}

#[test]
fn test_include_whitelist_excludes_others() {
    let policy = Excludes::new(
        vec!["github\\.com".to_string()],
        Vec::new(),
        None,
        false,
        false,
        false,
        false,
    )
    .unwrap();
    assert!(!policy.excluded(&website("https://github.com/a/b")));
    assert!(policy.excluded(&website("https://example.com/")));
}

#[test]
fn test_exclusion_precedence_order() {
    // the URI violates the scheme rule and matches an exclude pattern;
    // the scheme rule comes first
    let policy = Excludes::new(
        Vec::new(),
        vec!["mail\\.example".to_string()],
        Some("https".to_string()),
        false,
        false,
        false,
        false,
    )
    .unwrap();
    let uri = website("http://mail.example/x");
    assert_eq!(policy.exclusion_reason(&uri), Some(ExcludeReason::WrongScheme));

    // with the scheme matching, the exclude pattern decides
    let uri2 = website("https://mail.example/x");
    assert_eq!(policy.exclusion_reason(&uri2), Some(ExcludeReason::Matched));
}

#[test]
fn test_address_class_exclusion() {
    let policy = Excludes::new(
        Vec::new(),
        Vec::new(),
        None,
        true,
        false,
        false,
        false,
    )
    .unwrap();
    assert_eq!(
        policy.exclusion_reason(&website("http://127.0.0.1/x")),
        Some(ExcludeReason::AddressClass)
    );
    assert_eq!(
        policy.exclusion_reason(&website("http://192.168.1.4/x")),
        Some(ExcludeReason::AddressClass)
    );
    assert_eq!(
        policy.exclusion_reason(&website("http://169.254.3.2/x")),
        Some(ExcludeReason::AddressClass)
    );
    assert_eq!(
        policy.exclusion_reason(&website("http://[::1]/x")),
        Some(ExcludeReason::AddressClass)
    );
    assert_eq!(policy.exclusion_reason(&website("http://8.8.8.8/x")), None);

    let loopback_only = Excludes::new(
        Vec::new(),
        Vec::new(),
        None,
        false,
        false,
        false,
        true,
    )
    .unwrap();
    assert_eq!(
        loopback_only.exclusion_reason(&website("http://127.1.2.3/x")),
        Some(ExcludeReason::AddressClass)
    );
    assert_eq!(
        loopback_only.exclusion_reason(&website("http://192.168.1.4/x")),
        None
    );
}

#[test]
fn test_pool_answers_every_request() {
    // a scheme restriction nobody meets: every URI is answered as
    // excluded, with no network traffic
    let policy = Excludes::new(
        Vec::new(),
        Vec::new(),
        Some("gopher".to_string()),
        false,
        false,
        false,
        false,
    )
    .unwrap();
    let clients = vec![checker_with(policy, None, None)];
    let pool = ClientPool::new(clients);
    let requests = vec![
        website("https://a.example/1"),
        website("https://b.example/2"),
        Uri::Mail("c@d.example".to_string()),
    ];
    let texts: Vec<String> = requests.iter().map(|u| u.as_str().to_string()).collect();
    let responses = pool.listen(requests);
    assert_eq!(responses.len(), 3);
    for (i, response) in responses.iter().enumerate() {
        assert_eq!(response.uri.as_str(), texts[i]);
        assert!(response.status.is_excluded());
    }
}

#[test]
fn test_transport_failure_becomes_error_status() {
    // the sandbox has no route anywhere, so the request itself must
    // fail; the checker turns that into a status instead of raising
    let checker = checker_with(open_policy(), None, None);
    let response = checker.check(website("http://127.0.0.1:9/"));
    assert!(matches!(
        response.status,
        Status::Error(_) | Status::Timeout(_)
    ));
}

#[test]
fn test_excluded_uri_plans_no_request() {
    let policy = Excludes::new(
        Vec::new(),
        vec!["blocked\\.example".to_string()],
        None,
        false,
        false,
        false,
        false,
    )
    .unwrap();
    let checker = checker_with(policy, None, None);
    let plan = checker.check_plan(&website("https://blocked.example/x"));
    assert!(matches!(plan, CheckPlan::NoRequest(Status::Excluded)));
    let open = checker_with(open_policy(), None, None);
    let plan = open.check_plan(&website("https://fine.example/x"));
    assert!(matches!(plan, CheckPlan::Fetch(_)));
    let plan = open.check_plan(&Uri::Mail("a@b.example".to_string()));
    assert!(matches!(plan, CheckPlan::NoRequest(Status::Excluded)));
}

#[test]
fn test_extract_github_passes_over_bad_occurrence() {
    // the first occurrence has an empty owner segment; the search
    // moves on, as a backtracking pattern match would
    let checker = checker_with(open_policy(), None, None);
    assert_eq!(
        checker
            .extract_github("https://github.com//github.com/a/b")
            .unwrap(),
        ("a".to_string(), "b".to_string())
    );
}
