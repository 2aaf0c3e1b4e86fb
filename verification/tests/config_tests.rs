use kimchi::config::{
    parse_basic_auth, parse_headers, parse_statuscodes, parse_timeout, read_header, Config,
    ConfigError,
};

#[test]
fn test_parse_custom_headers() {
    let parsed = parse_headers(&vec!["accept=text/html".to_string()]).unwrap();
    assert_eq!(parsed.len(), 1);
    assert_eq!(parsed[0].0, "accept");
    assert_eq!(parsed[0].1, "text/html");
}

#[test]
fn test_parse_statuscodes() {
    let actual = parse_statuscodes("200,204,301").unwrap();
    let mut codes = actual.expect("a non-empty list gives codes");
    codes.sort();
    assert_eq!(codes, vec![200u16, 204, 301]);
}

#[test]
fn test_parse_statuscodes_empty_means_no_overrides() {
    assert_eq!(parse_statuscodes(""), Ok(None));
}

#[test]
fn test_parse_statuscodes_rejects_junk() {
    assert_eq!(
        parse_statuscodes("200,xyz"),
        Err(ConfigError::InvalidStatusCode)
    );
    assert_eq!(
        parse_statuscodes("1000"),
        Err(ConfigError::InvalidStatusCode)
    );
}

#[test]
fn test_parse_basic_auth() {
    let (name, value) = parse_basic_auth("aladin:abretesesamo").unwrap();
    assert_eq!(name, "authorization");
    assert_eq!(value, "Basic YWxhZGluOmFicmV0ZXNlc2Ftbw==");
}

#[test]
fn test_parse_basic_auth_rejects_malformed() {
    assert_eq!(
        parse_basic_auth("no-colon-here"),
        Err(ConfigError::InvalidBasicAuth)
    );
    assert_eq!(
        parse_basic_auth("a:b:c"),
        Err(ConfigError::InvalidBasicAuth)
    );
}

#[test]
fn test_read_header_rejects_malformed() {
    assert_eq!(read_header("accept"), Err(ConfigError::InvalidHeader));
    assert_eq!(read_header("a=b=c"), Err(ConfigError::InvalidHeader));
    assert_eq!(
        read_header("accept=text/html"),
        Ok(("accept".to_string(), "text/html".to_string()))
    );
}

#[test]
fn test_parse_timeout() {
    assert_eq!(parse_timeout("20"), Ok(20));
    assert_eq!(parse_timeout("0"), Ok(0));
    assert_eq!(parse_timeout(""), Err(ConfigError::InvalidTimeout));
    assert_eq!(parse_timeout("20s"), Err(ConfigError::InvalidTimeout));
}

#[test]
fn test_merge_file_value_wins_on_default() {
    // the config file sets verbose; the command line left it at its
    // default, so the file's value is the effective one
    let cli = Config::default();
    let mut file = Config::default();
    file.verbose = true;
    let merged = cli.merge(file);
    assert!(merged.verbose);

    // an explicit `false` on the command line equals the documented
    // default, so the file still wins
    let mut cli = Config::default();
    cli.verbose = false;
    let mut file = Config::default();
    file.verbose = true;
    let merged = cli.merge(file);
    assert!(merged.verbose);
}

#[test]
fn test_merge_cli_value_wins_when_set() {
    let mut cli = Config::default();
    cli.max_redirects = 3;
    cli.user_agent = "tester/1.0".to_string();
    let mut file = Config::default();
    file.max_redirects = 7;
    file.user_agent = "filed/2.0".to_string();
    file.scheme = Some("https".to_string());
    let merged = cli.merge(file);
    assert_eq!(merged.max_redirects, 3);
    assert_eq!(merged.user_agent, "tester/1.0");
    // the command line left scheme unset, so the file's value lands
    assert_eq!(merged.scheme, Some("https".to_string()));
}
