use pulsar_hub::catalog::{
    apply_page_result, install_dir_name, installed_engine_dir_satisfying, launch_choice,
    load_more_targets, mark_loading, needed_repos, needs_nightly_channel, pending_install_step,
    pick_engine_tag, rebuild_available_releases, recompute_has_more, removal_target,
    reset_sources, sources_to_fetch, toggle_channel, LaunchChoice, PendingStep, RemovalTarget,
    installable_release_indices, release_card_state, ReleaseCardState,
};
use pulsar_hub::installer::{
    ChannelSource, GitHubAsset, GitHubRelease, InstalledVersion, PulsarInstallMetadata,
    ReleaseChannel,
};
use pulsar_hub::platform::PlatformInfo;

const MAIN: &str = "Far-Beyond-Pulsar/Pulsar-Native";
const NIGHTLY: &str = "Far-Beyond-Pulsar/Nightly";

fn release(tag: &str, published_at: &str, assets: &[&str]) -> GitHubRelease {
    GitHubRelease {
        tag_name: tag.to_string(),
        name: tag.to_string(),
        body: format!("notes {}", tag),
        assets: assets
            .iter()
            .map(|n| GitHubAsset {
                name: n.to_string(),
                browser_download_url: format!("https://example.com/{}", n),
                size: 7,
            })
            .collect(),
        prerelease: false,
        published_at: published_at.to_string(),
    }
}

fn installed(version: &str, dir: &str) -> InstalledVersion {
    InstalledVersion {
        metadata: PulsarInstallMetadata {
            version: version.to_string(),
            install_date: String::new(),
            install_path: dir.to_string(),
        },
        disk_size_bytes: 0,
        update_available: false,
    }
}

fn linux() -> PlatformInfo {
    PlatformInfo { os: "linux".to_string(), arch: "x86_64".to_string(), ext: "tar.gz".to_string() }
}

#[test]
fn needed_repos_are_deduplicated_in_order() {
    let selected = vec![ReleaseChannel::Alpha, ReleaseChannel::Nightly, ReleaseChannel::Stable];
    assert_eq!(needed_repos(&selected), vec![MAIN, NIGHTLY]);
    assert!(needed_repos(&vec![]).is_empty());
}

#[test]
fn toggling_channels() {
    let mut selected = vec![ReleaseChannel::Stable];
    toggle_channel(&mut selected, ReleaseChannel::Nightly, true);
    toggle_channel(&mut selected, ReleaseChannel::Nightly, true);
    assert_eq!(selected, vec![ReleaseChannel::Stable, ReleaseChannel::Nightly]);
    toggle_channel(&mut selected, ReleaseChannel::Stable, false);
    assert_eq!(selected, vec![ReleaseChannel::Nightly]);
    assert!(needs_nightly_channel("Nightly-abc", &vec![ReleaseChannel::Stable]));
    assert!(!needs_nightly_channel("nightly-abc", &selected));
    assert!(!needs_nightly_channel("0.1.2", &vec![]));
}

#[test]
fn pages_join_sources_without_duplicate_tags() {
    let mut src = ChannelSource::new(MAIN);
    src.loading = true;
    apply_page_result(
        &mut src,
        1,
        Ok(vec![release("v1", "", &[]), release("v2", "", &[]), release("v1", "", &[])]),
    );
    let tags: Vec<&str> = src.fetched.iter().map(|r| r.tag_name.as_str()).collect();
    assert_eq!(tags, vec!["v1", "v2"]);
    assert_eq!(src.page, 1);
    assert!(!src.has_more);
    assert!(!src.loading);

    let full: Vec<GitHubRelease> = (0..30).map(|i| release(&format!("t{}", i), "", &[])).collect();
    apply_page_result(&mut src, 2, Ok(full));
    assert_eq!(src.fetched.len(), 32);
    assert!(src.has_more);

    src.loading = true;
    apply_page_result(&mut src, 3, Err("HTTP 500".to_string()));
    assert_eq!(src.error.as_deref(), Some("HTTP 500"));
    assert_eq!(src.page, 2);
    assert!(!src.loading);
}

#[test]
fn pagination_targets_and_flags() {
    let mut main = ChannelSource::new(MAIN);
    main.page = 2;
    let mut nightly = ChannelSource::new(NIGHTLY);
    nightly.has_more = false;
    let sources = vec![main, nightly];
    let needed = vec![MAIN, NIGHTLY];
    assert_eq!(load_more_targets(&sources, &needed), vec![(MAIN, 3)]);
    assert!(recompute_has_more(&sources, &needed));
    assert!(!recompute_has_more(&sources, &vec![NIGHTLY]));
    assert_eq!(sources_to_fetch(&sources, &needed), vec![NIGHTLY]);

    let mut marked = sources.clone();
    mark_loading(&mut marked, &vec![NIGHTLY]);
    assert!(!marked[0].loading);
    assert!(marked[1].loading);

    reset_sources(&mut marked);
    assert!(marked.iter().all(|s| s.page == 0 && s.has_more && !s.loading && s.fetched.is_empty()));
    assert_eq!(marked[1].repo, NIGHTLY);
}

#[test]
fn listed_releases_follow_channels_and_dates() {
    let mut main = ChannelSource::new(MAIN);
    main.fetched = vec![
        release("v0.9.0", "2024-01-01T00:00:00Z", &[]),
        release("v1.0.0", "2024-03-01T00:00:00Z", &[]),
        release("v1.1.0", "2024-02-01T00:00:00Z", &[]),
    ];
    let mut nightly = ChannelSource::new(NIGHTLY);
    nightly.fetched = vec![
        release("nightly-a", "2024-04-01T00:00:00Z", &[]),
        release("v1.0.0", "2025-01-01T00:00:00Z", &[]),
    ];
    let sources = vec![main, nightly];

    let stable = rebuild_available_releases(&sources, &vec![ReleaseChannel::Stable]);
    let tags: Vec<&str> = stable.iter().map(|r| r.tag_name.as_str()).collect();
    assert_eq!(tags, vec!["v1.0.0", "v1.1.0"]);
    assert_eq!(stable[0].body, "notes v1.0.0");

    let all = rebuild_available_releases(
        &sources,
        &vec![ReleaseChannel::Stable, ReleaseChannel::Alpha, ReleaseChannel::Nightly],
    );
    let tags: Vec<&str> = all.iter().map(|r| r.tag_name.as_str()).collect();
    assert_eq!(tags, vec!["nightly-a", "v1.0.0", "v1.1.0", "v0.9.0"]);
    assert_eq!(all[1].published_at, "2024-03-01T00:00:00Z");
}

#[test]
fn newest_satisfying_engine_is_launched() {
    let set = vec![
        installed("0.1.5", "/e/a"),
        installed("0.2.0", "/e/b"),
        installed("0.1.9", "/e/c"),
        installed("v0.2.0", "/e/d"),
        installed("nightly-x", "/e/n"),
    ];
    assert_eq!(installed_engine_dir_satisfying(&set, "0.1.6").as_deref(), Some("/e/d"));
    assert_eq!(installed_engine_dir_satisfying(&set, "0.3"), None);
    assert_eq!(installed_engine_dir_satisfying(&set, "nightly-x").as_deref(), Some("/e/n"));
}

#[test]
fn launch_choices() {
    let set = vec![installed("0.2.0", "/e/b"), installed("0.1.0", "/e/a")];
    assert!(matches!(launch_choice(Some("SRC".to_string()), &set, true), LaunchChoice::BuildFromSource));
    assert!(matches!(launch_choice(Some("src".to_string()), &set, false), LaunchChoice::SourceMissing));
    assert!(matches!(
        launch_choice(Some("0.1.5".to_string()), &set, false),
        LaunchChoice::Launch { dir } if dir == "/e/b"
    ));
    assert!(matches!(
        launch_choice(Some("0.3.0".to_string()), &set, false),
        LaunchChoice::PromptInstall { required } if required == "0.3.0"
    ));
    assert!(matches!(
        launch_choice(None, &set, false),
        LaunchChoice::LaunchNewest { newest: Some(d) } if d == "/e/b"
    ));
    assert!(matches!(launch_choice(None, &vec![], false), LaunchChoice::LaunchNewest { newest: None }));
}

#[test]
fn engine_tag_picking() {
    let releases = vec![
        release("v0.3.0", "", &["pulsar-windows-x86_64.exe"]),
        release("v0.2.1", "", &["pulsar-linux-x86_64.tar.gz"]),
        release("v0.2.0", "", &["pulsar-linux-x86_64.tar.gz"]),
        release("nightly-7", "", &[]),
    ];
    assert_eq!(pick_engine_tag(&releases, "nightly-7", &linux()).as_deref(), Some("nightly-7"));
    assert_eq!(pick_engine_tag(&releases, "nightly-8", &linux()), None);
    assert_eq!(pick_engine_tag(&releases, "0.2.0", &linux()).as_deref(), Some("v0.2.1"));
    assert_eq!(pick_engine_tag(&releases, "0.2.5", &linux()), None);
    assert_eq!(pick_engine_tag(&releases, "garbage", &linux()), None);

    let set = vec![installed("0.1.0", "/e/a")];
    assert!(matches!(pending_install_step(&None, &set, &releases, &linux()), PendingStep::Idle));
    assert!(matches!(
        pending_install_step(&Some("0.1".to_string()), &set, &releases, &linux()),
        PendingStep::Satisfied
    ));
    assert!(matches!(
        pending_install_step(&Some("0.2".to_string()), &set, &releases, &linux()),
        PendingStep::Install(tag) if tag == "v0.2.1"
    ));
    assert!(matches!(
        pending_install_step(&Some("0.9".to_string()), &set, &releases, &linux()),
        PendingStep::Wait
    ));
}

#[test]
fn install_dir_names_drop_leading_v() {
    assert_eq!(install_dir_name("v0.1.23"), "0.1.23");
    assert_eq!(install_dir_name("vv1"), "1");
    assert_eq!(install_dir_name("nightly-1"), "nightly-1");
    assert_eq!(install_dir_name("V2"), "V2");
}

#[test]
fn removing_versions() {
    let set = vec![installed("0.1.0", "/e/a"), installed("0.1.0", "/e/b")];
    assert!(matches!(removal_target("Src", &set), RemovalTarget::Source));
    assert!(matches!(removal_target("0.1.0", &set), RemovalTarget::Directory(d) if d == "/e/a"));
    assert!(matches!(removal_target("0.2.0", &set), RemovalTarget::Nothing));
}

#[test]
fn release_cards_and_install_list() {
    let set = vec![installed("0.2.0", "/e/b")];
    let r1 = release("v0.2.0", "", &[]);
    let r2 = release("v0.3.0", "", &["pulsar-linux-x86_64.tar.gz"]);
    let r3 = release("v0.4.0", "", &["mac.dmg"]);
    assert!(matches!(release_card_state(&r1, &set, &linux()), ReleaseCardState::Installed));
    assert!(matches!(release_card_state(&r2, &set, &linux()), ReleaseCardState::Installable));
    assert!(matches!(release_card_state(&r3, &set, &linux()), ReleaseCardState::NoBinary));

    let mut pre = release("v0.5.0-rc", "", &[]);
    pre.prerelease = true;
    let list = vec![r1, pre, r2, r3];
    assert_eq!(installable_release_indices(&list), vec![0, 2, 3]);
}
