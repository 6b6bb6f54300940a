//! Whether a newer release exists: the endpoint, the release read from its
//! answer, and the version ordering.

use ceyrad::portable::update_check::{
    compare_versions, is_newer, latest_release_url, release_from, Release,
};
use std::cmp::Ordering;

const REPO: &str = "https://github.com/Narcissus-tazetta/Ceyrad";
const CURRENT_VERSION: &str = "0.1.0";

/// The fields of a `releases/latest` body, read the way the app reads them,
/// handed to the library.
fn parse_latest(body: &str) -> Option<Release> {
    let value: serde_json::Value = serde_json::from_str(body).ok()?;
    let object = value.as_object()?;
    let tag = object.get("tag_name").and_then(|v| v.as_str());
    let page = object.get("html_url").and_then(|v| v.as_str());
    let draft = object.get("draft").and_then(|v| v.as_bool()).unwrap_or(false);
    let prerelease = object.get("prerelease").and_then(|v| v.as_bool()).unwrap_or(false);
    release_from(tag, page, draft, prerelease)
}

#[test]
fn the_api_url_is_derived_from_the_repository_field() {
    assert_eq!(
        latest_release_url(REPO).as_deref(),
        Some("https://api.github.com/repos/Narcissus-tazetta/Ceyrad/releases/latest")
    );
}

#[test]
fn the_api_url_tolerates_a_trailing_slash_or_git_suffix() {
    let expected = Some("https://api.github.com/repos/Narcissus-tazetta/Ceyrad/releases/latest");
    assert_eq!(
        latest_release_url("https://github.com/Narcissus-tazetta/Ceyrad/").as_deref(),
        expected
    );
    assert_eq!(
        latest_release_url("https://github.com/Narcissus-tazetta/Ceyrad.git").as_deref(),
        expected
    );
}

#[test]
fn a_non_github_repository_yields_no_url() {
    for repository in [
        "",
        "https://example.com/foo/bar",
        "https://github.com/only-an-owner",
        "https://github.com/a/b/c",
    ] {
        assert_eq!(latest_release_url(repository), None, "{repository:?}");
    }
}

#[test]
fn a_release_is_read_from_the_response() {
    let body = r#"{
        "tag_name": "v0.2.0",
        "html_url": "https://github.com/o/r/releases/tag/v0.2.0",
        "draft": false,
        "prerelease": false
    }"#;
    let release = parse_latest(body).expect("a release");
    assert_eq!(release.tag, "v0.2.0");
    assert_eq!(release.version, "0.2.0");
    assert_eq!(release.page_url, "https://github.com/o/r/releases/tag/v0.2.0");
}

#[test]
fn a_draft_or_prerelease_is_not_offered() {
    let draft = r#"{"tag_name":"v9.0.0","html_url":"https://x","draft":true}"#;
    let pre = r#"{"tag_name":"v9.0.0","html_url":"https://x","prerelease":true}"#;
    assert_eq!(parse_latest(draft), None);
    assert_eq!(parse_latest(pre), None);
}

#[test]
fn an_unusable_response_yields_nothing() {
    for body in [
        "",
        "not json",
        "{}",
        r#"{"tag_name":"v1.0.0"}"#,
        r#"{"html_url":"https://github.com/o/r"}"#,
        r#"{"tag_name":"v","html_url":"https://github.com/o/r"}"#,
    ] {
        assert_eq!(parse_latest(body), None, "{body:?}");
    }
}

#[test]
fn a_page_url_that_is_not_github_is_refused() {
    for url in [
        "http://github.com/o/r",
        "https://github.evil.example/o/r",
        "file:///C:/Windows/System32/x.exe",
        "ms-settings:",
        "\\\\attacker\\share\\payload.exe",
    ] {
        let body = format!(r#"{{"tag_name":"v9.0.0","html_url":{}}}"#, serde_json::Value::from(url));
        assert_eq!(parse_latest(&body), None, "{url:?}");
    }
}

#[test]
fn a_higher_component_is_newer() {
    assert!(is_newer("0.2.0", "0.1.9"));
    assert!(is_newer("1.0.0", "0.99.99"));
    assert!(is_newer("0.1.2", "0.1.1"));
}

#[test]
fn the_same_version_is_not_an_update() {
    assert!(!is_newer("0.1.0", "0.1.0"));
    assert!(!is_newer("v0.1.0", "0.1.0"), "the v prefix is not a version");
    assert!(!is_newer("0.1", "0.1.0"), "a missing component is zero");
}

#[test]
fn an_older_version_is_not_an_update() {
    assert!(!is_newer("0.1.0", "0.2.0"));
    assert!(!is_newer("0.9.9", "1.0.0"));
}

#[test]
fn components_compare_numerically_not_as_text() {
    assert!(is_newer("0.10.0", "0.9.0"));
    assert!(is_newer("0.1.10", "0.1.9"));
}

#[test]
fn a_prerelease_sorts_below_the_release_it_leads_to() {
    assert!(is_newer("1.0.0", "1.0.0-rc1"));
    assert!(!is_newer("1.0.0-rc1", "1.0.0"));
    assert!(is_newer("1.0.0-rc1", "0.9.0"));
}

#[test]
fn build_metadata_does_not_affect_precedence() {
    assert_eq!(compare_versions("1.0.0+abc", "1.0.0"), Ordering::Equal);
}

#[test]
fn an_unparseable_tag_never_reads_as_newer() {
    assert!(!is_newer("nightly", CURRENT_VERSION));
    assert!(!is_newer("", "0.1.0"));
}

#[test]
fn the_ordering_is_total_and_consistent() {
    assert_eq!(compare_versions("1.2", "1.2.0"), Ordering::Equal);
    assert_eq!(compare_versions("V2.0.0", "1.9.9"), Ordering::Greater);
    assert_eq!(compare_versions(" 1.0.0 ", "1.0.1"), Ordering::Less);
    assert_eq!(compare_versions("1.x.0", "1.0.0"), Ordering::Equal);
}
