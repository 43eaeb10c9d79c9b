use crates_io::json;
use crates_io::versions::{
    filter_versions_by_req, registry_url, versions_from_body, versions_from_reply, VersionReq,
};

fn list(versions: &[&str]) -> Vec<String> {
    versions.iter().map(|v| v.to_string()).collect()
}

fn best(versions: &[&str], req: &str) -> Option<String> {
    filter_versions_by_req(list(versions), &VersionReq::parse(req).unwrap())
}

#[test]
fn test_filter_versions_by_req_caret() {
    let versions = vec![
        "2.0.0".to_string(),
        "1.5.0".to_string(),
        "1.0.51".to_string(),
        "1.0.50".to_string(),
        "0.9.9".to_string(),
    ];

    let req = VersionReq::parse("^1.0.51").unwrap();
    let filtered = filter_versions_by_req(versions, &req);
    assert_eq!(filtered, Some("1.5.0".to_string()));

    let versions2 = vec![
        "0.9.9".to_string(),
        "0.10.0".to_string(),
        "0.10.1".to_string(),
        "0.11.0".to_string(),
    ];

    let req2 = VersionReq::parse("^0.10.0").unwrap();
    let filtered2 = filter_versions_by_req(versions2, &req2);
    assert_eq!(filtered2, Some("0.10.1".to_string()));
}

#[test]
fn greatest_is_by_version_and_not_by_text_or_place() {
    assert_eq!(best(&["1.9.0", "1.10.0", "1.2.0"], "^1").as_deref(), Some("1.10.0"));
    assert_eq!(best(&["1.0.0", "1.0.0-rc.1"], ">=1.0.0-rc.1").as_deref(), Some("1.0.0"));
    assert_eq!(best(&["1.0.0+b", "1.0.0+a"], "^1").as_deref(), Some("1.0.0+b"));
    assert_eq!(best(&["1.0.0+1", "1.0.0+01"], "^1").as_deref(), Some("1.0.0+01"));
}

#[test]
fn versions_that_do_not_parse_or_match_are_left_out() {
    assert_eq!(best(&["1.0", "01.0.0", "x", " 1.2.0"], "*"), None);
    assert_eq!(best(&["2.0.0"], "^1"), None);
    assert_eq!(best(&[], "^1"), None);
    assert_eq!(best(&["1.5.0-alpha", "1.4.0"], "^1").as_deref(), Some("1.4.0"));
}

#[test]
fn requirement_that_does_not_parse_is_refused() {
    assert!(VersionReq::parse("^").is_none());
    assert!(VersionReq::parse("not a req").is_none());
    assert!(VersionReq::parse("").is_none());
    assert!(VersionReq::parse("*").is_some());
}

#[test]
fn registry_reply_lists_the_versions_that_were_not_yanked() {
    let reply = json::parse_json(
        r#"{"versions":[{"num":"1.0.0","yanked":true},{"num":"0.9.0","yanked":false},{"num":"0.8.0"},{"num":7},{"yanked":false}]}"#,
    )
    .unwrap();
    assert_eq!(versions_from_reply(&reply), vec!["0.9.0", "0.8.0"]);
    let other = json::parse_json(r#"{"versions":{}}"#).unwrap();
    assert!(versions_from_reply(&other).is_empty());
    assert!(versions_from_reply(&json::parse_json("[]").unwrap()).is_empty());
}

#[test]
fn registry_url_names_the_crate() {
    assert_eq!(registry_url("log"), "https://crates.io/api/v1/crates/log");
}

#[test]
fn registry_body_is_read_as_json() {
    let body = r#"{"versions":[{"num":"1.0.0"},{"num":"0.9.0","yanked":true}]}"#;
    assert_eq!(versions_from_body(body).unwrap(), vec!["1.0.0"]);
    assert!(versions_from_body("{}").unwrap().is_empty());
    assert!(versions_from_body("<html>").is_err());
}
