use pulsar_hub::download::{initial_offset, negotiate, part_path};

#[test]
fn part_path_appends_suffix() {
    assert_eq!(
        part_path("/tmp/archives/pulsar-1.2.tar.gz").unwrap(),
        "/tmp/archives/pulsar-1.2.tar.gz.part"
    );
    assert_eq!(part_path("pulsar.exe").unwrap(), "pulsar.exe.part");
}

#[test]
fn part_path_rejects_nameless_dest() {
    assert!(part_path("/").is_err());
}

#[test]
fn initial_offset_only_when_resume_enabled() {
    assert_eq!(initial_offset(Some(100), true), 100);
    assert_eq!(initial_offset(Some(100), false), 0);
    assert_eq!(initial_offset(None, true), 0);
    assert_eq!(initial_offset(Some(0), true), 0);
}

#[test]
fn negotiate_resumes_on_partial_content() {
    assert_eq!(negotiate(500, 206, Some(300)), (500, Some(800)));
    assert_eq!(negotiate(500, 206, None), (500, None));
}

#[test]
fn negotiate_restarts_when_range_unsupported() {
    assert_eq!(negotiate(500, 200, Some(1_000)), (0, Some(1_000)));
    assert_eq!(negotiate(500, 200, None), (0, None));
}

#[test]
fn negotiate_starts_fresh_without_range_request() {
    assert_eq!(negotiate(0, 200, Some(1_000)), (0, Some(1_000)));
    assert_eq!(negotiate(0, 206, Some(1_000)), (0, Some(1_000)));
}

#[test]
fn part_path_error_message() {
    assert_eq!(part_path("").unwrap_err(), "Invalid destination path");
}

#[test]
fn part_path_stays_beside_the_destination() {
    assert_eq!(part_path("/a/b/c.zip").unwrap(), "/a/b/c.zip.part");
    assert_eq!(part_path("/c.zip").unwrap(), "/c.zip.part");
    assert_eq!(part_path("a/c.zip").unwrap(), "a/c.zip.part");
}
