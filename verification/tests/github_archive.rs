use pulsar_hub::github_archive::{archive_urls, parse_github_url};

#[test]
fn parses_plain_repo_url() {
    let r = parse_github_url("https://github.com/foo/bar.git").unwrap();
    assert_eq!(r.owner, "foo");
    assert_eq!(r.name, "bar");
    assert!(r.requested_ref.is_none());
}

#[test]
fn parses_tree_ref() {
    let r = parse_github_url("https://github.com/foo/bar/tree/release-1.0").unwrap();
    assert_eq!(r.requested_ref.as_deref(), Some("release-1.0"));
}

#[test]
fn rejects_non_github() {
    assert!(parse_github_url("https://gitlab.com/foo/bar").is_none());
}

#[test]
fn builds_head_url_when_no_ref() {
    let r = parse_github_url("https://github.com/foo/bar").unwrap();
    assert_eq!(
        archive_urls(&r)[0],
        "https://codeload.github.com/foo/bar/tar.gz/HEAD"
    );
}

#[test]
fn builds_branch_then_tag_urls() {
    let r = parse_github_url("https://github.com/foo/bar/tree/v2").unwrap();
    let urls = archive_urls(&r);
    assert!(urls[0].ends_with("/refs/heads/v2"));
    assert!(urls[1].ends_with("/refs/tags/v2"));
}

#[test]
fn tree_ref_keeps_nested_segments_and_raw_fallback() {
    let r = parse_github_url("  http://github.com/foo/bar/tree/feature/x// ").unwrap();
    assert_eq!(r.owner, "foo");
    assert_eq!(r.name, "bar");
    assert_eq!(r.requested_ref.as_deref(), Some("feature/x"));
    let urls = archive_urls(&r);
    assert_eq!(urls.len(), 3);
    assert_eq!(urls[2], "https://codeload.github.com/foo/bar/tar.gz/feature/x");
}

#[test]
fn ssh_url_and_missing_name() {
    let r = parse_github_url("git@github.com:owner/repo.git").unwrap();
    assert_eq!((r.owner.as_str(), r.name.as_str()), ("owner", "repo"));
    assert!(parse_github_url("https://github.com/owner").is_none());
    assert!(parse_github_url("https://github.com/ /repo").is_none());
}

#[test]
fn non_tree_third_segment_has_no_ref() {
    let r = parse_github_url("https://github.com/foo/bar/blob/main").unwrap();
    assert!(r.requested_ref.is_none());
}

#[test]
fn repo_page_url_round_trips() {
    let r = parse_github_url("https://github.com/Far-Beyond-Pulsar/Pulsar-Native").unwrap();
    assert_eq!(r.owner, "Far-Beyond-Pulsar");
    assert_eq!(r.name, "Pulsar-Native");
    assert!(r.requested_ref.is_none());
}
