use pulsar_hub::git_status::{
    apply_git_status_if_current, begin_pull, current_git_status_generation, fetch_status_of,
    git_fetch_paths, git_fetch_status, next_git_status_generation, record_discovery_failure,
    AutoFetchOutcome, GitFetchStatus, TrackingSnapshot,
};
use pulsar_hub::keyed::KeyedMap;

fn tracking_snapshot(behind: usize) -> TrackingSnapshot {
    TrackingSnapshot {
        branch: "main".to_string(),
        upstream_oid: Some("0123456789abcdef".to_string()),
        behind,
    }
}

#[test]
fn git_fetch_result_maps_to_card_status() {
    let mut untracked = tracking_snapshot(0);
    untracked.upstream_oid = None;
    assert!(matches!(
        git_fetch_status(Ok(AutoFetchOutcome::Fetched(untracked))),
        Some(GitFetchStatus::NotStarted)
    ));
    assert!(matches!(
        git_fetch_status(Ok(AutoFetchOutcome::Fetched(tracking_snapshot(0)))),
        Some(GitFetchStatus::UpToDate)
    ));
    assert!(matches!(
        git_fetch_status(Ok(AutoFetchOutcome::Fetched(tracking_snapshot(3)))),
        Some(GitFetchStatus::UpdatesAvailable(3))
    ));
    assert!(git_fetch_status(Ok(AutoFetchOutcome::Busy)).is_none());
    assert!(matches!(
        git_fetch_status(Err(git2::Error::from_str("network unavailable"))),
        Some(GitFetchStatus::Error(message)) if message == "network unavailable"
    ));
}

#[test]
fn stale_git_status_result_does_not_replace_newer_operation() {
    let key = "C:/projects/game";
    let repository_key = "C:/projects/game/.git";
    let mut statuses = KeyedMap::new();
    statuses.insert(key.to_string(), GitFetchStatus::Fetching);
    let mut generations = KeyedMap::new();
    let stale_generation = next_git_status_generation(&mut generations, repository_key);
    let current_generation = next_git_status_generation(&mut generations, repository_key);

    assert!(!apply_git_status_if_current(
        &mut statuses,
        &generations,
        key.to_string(),
        repository_key,
        stale_generation,
        Some(GitFetchStatus::UpdatesAvailable(2)),
    ));
    assert!(matches!(statuses.get(key), Some(GitFetchStatus::Fetching)));

    assert!(apply_git_status_if_current(
        &mut statuses,
        &generations,
        key.to_string(),
        repository_key,
        current_generation,
        Some(GitFetchStatus::UpToDate),
    ));
    assert!(matches!(statuses.get(key), Some(GitFetchStatus::UpToDate)));
}

#[test]
fn busy_git_fetch_leaves_current_status_unchanged() {
    let key = "C:/projects/game";
    let repository_key = "C:/projects/game/.git";
    let mut statuses = KeyedMap::new();
    statuses.insert(key.to_string(), GitFetchStatus::UpdatesAvailable(1));
    let generations = KeyedMap::new();

    assert!(!apply_git_status_if_current(
        &mut statuses,
        &generations,
        key.to_string(),
        repository_key,
        0,
        None,
    ));
    assert!(matches!(
        statuses.get(key),
        Some(GitFetchStatus::UpdatesAvailable(1))
    ));
}

#[test]
fn generations_start_at_zero_and_count_up_per_repository() {
    let mut generations = KeyedMap::new();
    assert_eq!(current_git_status_generation(&generations, "a"), 0);
    assert_eq!(next_git_status_generation(&mut generations, "a"), 1);
    assert_eq!(next_git_status_generation(&mut generations, "a"), 2);
    assert_eq!(next_git_status_generation(&mut generations, "b"), 1);
    assert_eq!(current_git_status_generation(&generations, "a"), 2);
}

#[test]
fn generation_wraps_around() {
    let mut generations = KeyedMap::new();
    generations.insert("a".to_string(), u64::MAX);
    assert_eq!(next_git_status_generation(&mut generations, "a"), 0);
}

#[test]
fn separate_status_keys_of_one_repository() {
    let repository_key = "/work/game/.git";
    let mut statuses = KeyedMap::new();
    statuses.insert("/work/game".to_string(), GitFetchStatus::Fetching);
    statuses.insert("/work/game/nested".to_string(), GitFetchStatus::Fetching);
    let mut generations = KeyedMap::new();
    let stale = next_git_status_generation(&mut generations, repository_key);
    let current = next_git_status_generation(&mut generations, repository_key);
    assert!(!apply_git_status_if_current(
        &mut statuses,
        &generations,
        "/work/game".to_string(),
        repository_key,
        stale,
        Some(GitFetchStatus::UpdatesAvailable(2)),
    ));
    assert!(apply_git_status_if_current(
        &mut statuses,
        &generations,
        "/work/game/nested".to_string(),
        repository_key,
        current,
        Some(GitFetchStatus::UpToDate),
    ));
    assert!(matches!(statuses.get("/work/game"), Some(GitFetchStatus::Fetching)));
    assert!(matches!(statuses.get("/work/game/nested"), Some(GitFetchStatus::UpToDate)));
}

#[test]
fn error_message_is_kept() {
    assert_eq!(
        fetch_status_of(Err("boom".to_string())),
        Some(GitFetchStatus::Error("boom".to_string()))
    );
}

#[test]
fn git_error_with_class_carries_it_in_text() {
    let error = git2::Error::new(
        git2::ErrorCode::NotFound,
        git2::ErrorClass::Reference,
        "missing ref",
    );
    match git_fetch_status(Err(error)) {
        Some(GitFetchStatus::Error(message)) => {
            assert!(message.starts_with("missing ref"));
            assert!(message.len() > "missing ref".len());
        }
        _ => panic!("expected an error status"),
    }
}

#[test]
fn fetch_paths_pair_each_project_with_its_path() {
    let paths = vec!["/a/one".to_string(), "/b/two".to_string()];
    assert_eq!(
        git_fetch_paths(&paths),
        vec![
            ("/a/one".to_string(), "/a/one".to_string()),
            ("/b/two".to_string(), "/b/two".to_string())
        ]
    );
}

#[test]
fn discovery_failures_clear_or_report() {
    let mut statuses = KeyedMap::new();
    statuses.insert("/p".to_string(), GitFetchStatus::UpToDate);
    assert!(record_discovery_failure(&mut statuses, "/p".to_string(), true, String::new()));
    assert!(statuses.get("/p").is_none());
    assert!(!record_discovery_failure(&mut statuses, "/p".to_string(), true, String::new()));
    assert!(record_discovery_failure(&mut statuses, "/q".to_string(), false, "denied".to_string()));
    assert_eq!(statuses.get("/q"), Some(&GitFetchStatus::Error("denied".to_string())));
}

#[test]
fn pulling_starts_a_new_operation() {
    let mut statuses = KeyedMap::new();
    let mut generations = KeyedMap::new();
    let first = begin_pull(&mut statuses, &mut generations, "/p".to_string(), "/p/.git");
    assert_eq!(first, 1);
    assert_eq!(statuses.get("/p"), Some(&GitFetchStatus::Fetching));
    let second = begin_pull(&mut statuses, &mut generations, "/p".to_string(), "/p/.git");
    assert_eq!(second, 2);
    assert!(!apply_git_status_if_current(
        &mut statuses,
        &generations,
        "/p".to_string(),
        "/p/.git",
        first,
        Some(GitFetchStatus::UpToDate),
    ));
}

#[test]
fn keyed_map_entries_stay_unique() {
    let mut m = KeyedMap::new();
    m.insert("a".to_string(), 1u64);
    m.insert("b".to_string(), 2);
    m.insert("a".to_string(), 3);
    assert_eq!(m.entries().len(), 2);
    assert_eq!(m.get("a"), Some(&3));
    let copy = m.clone();
    assert!(m.remove("a"));
    assert!(!m.remove("a"));
    assert_eq!(m.get("a"), None);
    assert_eq!(copy.get("a"), Some(&3));
    assert_eq!(m.get("b"), Some(&2));
}
