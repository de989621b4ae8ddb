use pulsar_hub::installer::{
    default_install_path_for, finished_install, hoists_archive_entry, metadata_for_dir,
    search_roots_for, should_flatten_archive_root, FinishedInstall,
};
use pulsar_hub::installer::{
    any_installed_satisfies, default_channel_sources, default_selected_channels,
    engine_binary_names, install_plan, is_engine_binary_name, push_log_locked, release_notes_text,
    repo_tag_for_version, sort_releases_newest_first, src_binary_names, BuildProgress,
    ChannelSource, GitHubAsset, GitHubRelease, InstallPlan, InstalledVersion,
    PulsarInstallMetadata, ReleaseChannel, ReleaseNotesFetch, MAX_BUILD_LOGS,
};
use pulsar_hub::platform::{find_platform_asset, nightly_platform_token, PlatformInfo};

fn release(tag: &str, published_at: &str, assets: &[&str]) -> GitHubRelease {
    GitHubRelease {
        tag_name: tag.to_string(),
        name: tag.to_string(),
        body: String::new(),
        assets: assets
            .iter()
            .map(|n| GitHubAsset {
                name: n.to_string(),
                browser_download_url: format!("https://example.com/{}", n),
                size: 1,
            })
            .collect(),
        prerelease: false,
        published_at: published_at.to_string(),
    }
}

#[test]
fn channels() {
    assert_eq!(ReleaseChannel::Stable.label(), "Stable");
    assert_eq!(ReleaseChannel::Nightly.repo(), "Far-Beyond-Pulsar/Nightly");
    assert_eq!(ReleaseChannel::Alpha.repo(), "Far-Beyond-Pulsar/Pulsar-Native");
    assert!(ReleaseChannel::Stable.includes(&release("v1.0.0", "", &[])));
    assert!(!ReleaseChannel::Alpha.includes(&release("v1.0.0", "", &[])));
    assert!(ReleaseChannel::Alpha.includes(&release("v0.3.1", "", &[])));
    assert!(!ReleaseChannel::Stable.includes(&release("latest", "", &[])));
    assert!(ReleaseChannel::Nightly.includes(&release("latest", "", &[])));
    let sources = default_channel_sources();
    assert_eq!(sources.len(), 2);
    assert_eq!(sources[0].repo, "Far-Beyond-Pulsar/Pulsar-Native");
    assert_eq!(sources[1].repo, "Far-Beyond-Pulsar/Nightly");
    let fresh = ChannelSource::new("r");
    assert_eq!(fresh.page, 0);
    assert!(fresh.has_more);
    assert!(!default_selected_channels().is_empty());
}

#[test]
fn any_installed_satisfies_scans_all() {
    let installed = |v: &str| InstalledVersion {
        metadata: PulsarInstallMetadata {
            version: v.to_string(),
            install_date: String::new(),
            install_path: String::new(),
        },
        disk_size_bytes: 0,
        update_available: false,
    };
    let set = vec![installed("0.1.2"), installed("0.2.0")];
    assert!(any_installed_satisfies(&set, "0.1.5"));
    assert!(!any_installed_satisfies(&set, "0.3"));
    assert!(!any_installed_satisfies(&[], "0.1"));
}

#[test]
fn releases_sort_newest_first_and_stably() {
    let mut rs = vec![
        release("a", "2024-01-01T00:00:00Z", &[]),
        release("b", "not a date", &[]),
        release("c", "2024-03-01T00:00:00+02:00", &[]),
        release("d", "2024-03-01T00:00:00+02:00", &[]),
        release("e", "2023-12-31T23:59:59.999Z", &[]),
    ];
    sort_releases_newest_first(&mut rs);
    let order: Vec<&str> = rs.iter().map(|r| r.tag_name.as_str()).collect();
    assert_eq!(order, vec!["c", "d", "a", "e", "b"]);
}

#[test]
fn repo_tags() {
    assert_eq!(
        repo_tag_for_version("Nightly-2024"),
        ("Far-Beyond-Pulsar/Nightly", "Nightly-2024".to_string())
    );
    assert_eq!(
        repo_tag_for_version("0.1.23"),
        ("Far-Beyond-Pulsar/Pulsar-Native", "v0.1.23".to_string())
    );
    assert_eq!(
        repo_tag_for_version("V0.1.23"),
        ("Far-Beyond-Pulsar/Pulsar-Native", "V0.1.23".to_string())
    );
}

#[test]
fn release_notes_fallbacks() {
    assert_eq!(
        release_notes_text("0.1", ReleaseNotesFetch::ClientUnavailable),
        "Could not load release notes for **0.1**."
    );
    assert_eq!(
        release_notes_text("0.1", ReleaseNotesFetch::Body("  \n".to_string())),
        "No release notes are available for engine version **0.1**."
    );
    assert_eq!(
        release_notes_text("0.1", ReleaseNotesFetch::Body("notes".to_string())),
        "notes"
    );
    assert_eq!(
        release_notes_text("0.1", ReleaseNotesFetch::Unavailable),
        "No release notes are available for engine version **0.1**."
    );
}

#[test]
fn install_plans() {
    assert!(matches!(
        install_plan("https://x/y/Engine.ZIP", "1", "exe"),
        InstallPlan::Zip { archive_name } if archive_name == "Engine.ZIP"
    ));
    assert!(matches!(install_plan("https://x/y/pulsar.exe", "1", "exe"), InstallPlan::RawExe));
    assert!(matches!(
        install_plan("https://x/y/p.tar.gz", "1", "tar.gz"),
        InstallPlan::TarGz { archive_name } if archive_name == "p.tar.gz"
    ));
    assert!(matches!(
        install_plan("https://x/y/", "2", "tar.gz"),
        InstallPlan::TarGz { archive_name } if archive_name == "pulsar-2.tar.gz"
    ));
}

#[test]
fn engine_binaries() {
    assert_eq!(engine_binary_names("windows"), vec!["pulsar.exe", "pulsar_engine.exe"]);
    assert_eq!(engine_binary_names("linux"), vec!["pulsar", "pulsar_engine"]);
    assert_eq!(
        engine_binary_names("macos"),
        vec!["Contents/MacOS/pulsar", "pulsar", "pulsar_engine"]
    );
    assert_eq!(src_binary_names(true), vec!["pulsar_engine.exe", "pulsar.exe"]);
    assert_eq!(src_binary_names(false), vec!["pulsar_engine", "pulsar"]);
    assert!(is_engine_binary_name("Pulsar.EXE", true));
    assert!(is_engine_binary_name("pulsar_engine", false));
    assert!(!is_engine_binary_name("pulsar.exe", false));
}

#[test]
fn build_logs_are_capped() {
    let mut p = BuildProgress::default();
    for i in 0..(MAX_BUILD_LOGS + 5) {
        push_log_locked(&mut p, format!("line {}", i));
    }
    assert_eq!(p.logs.len(), MAX_BUILD_LOGS);
    assert_eq!(p.logs[0], "line 5");
    assert_eq!(p.logs[MAX_BUILD_LOGS - 1], format!("line {}", MAX_BUILD_LOGS + 4));
}

#[test]
fn platform_asset_selection() {
    let linux = PlatformInfo {
        os: "linux".to_string(),
        arch: "x86_64".to_string(),
        ext: "tar.gz".to_string(),
    };
    let r = release("v1", "", &["pulsar-windows-x86_64.exe", "Pulsar-Linux-X86_64.tar.gz"]);
    assert_eq!(find_platform_asset(&r, &linux).unwrap().name, "Pulsar-Linux-X86_64.tar.gz");

    let nightly = release("n", "", &["Pulsar-Native_x64_abc.zip", "Pulsar-Native_linux-x64_def.zip"]);
    assert_eq!(
        find_platform_asset(&nightly, &linux).unwrap().name,
        "Pulsar-Native_linux-x64_def.zip"
    );

    let loose = release("l", "", &["engine-LINUX-build-x86_64.bin"]);
    assert_eq!(find_platform_asset(&loose, &linux).unwrap().name, "engine-LINUX-build-x86_64.bin");
    assert!(find_platform_asset(&release("z", "", &["mac.dmg"]), &linux).is_none());

    assert_eq!(nightly_platform_token("macos", "aarch64").as_deref(), Some("macos-arm64"));
    assert_eq!(nightly_platform_token("linux", "riscv64"), None);
}

#[test]
fn metadata_for_dir_follows_the_install_rules() {
    let recorded = PulsarInstallMetadata {
        version: "0.2.0".to_string(),
        install_date: "2024-01-01T00:00:00Z".to_string(),
        install_path: "/opt/pulsar/0.2.0".to_string(),
    };
    let m = metadata_for_dir("/opt/pulsar/0.2.0", Some(Some(recorded.clone())), true, true).unwrap();
    assert_eq!(m.version, "0.2.0");
    assert!(metadata_for_dir("/opt/pulsar/0.2.0", Some(Some(recorded.clone())), true, false).is_none());
    assert!(metadata_for_dir("/opt/pulsar/0.2.0", Some(Some(recorded)), false, true).is_none());
    assert!(metadata_for_dir("/opt/pulsar/0.2.0", Some(None), true, true).is_none());
    let m = metadata_for_dir("/opt/pulsar/0.3.1", None, true, false).unwrap();
    assert_eq!(m.version, "0.3.1");
    assert_eq!(m.install_date, "");
    assert_eq!(m.install_path, "/opt/pulsar/0.3.1");
    assert_eq!(metadata_for_dir("/", None, true, false).unwrap().version, "unknown");
    assert!(metadata_for_dir("/opt/pulsar/0.3.1", None, false, false).is_none());
}

#[test]
fn default_install_path_per_platform() {
    assert_eq!(default_install_path_for(false, true, "/home/me", None), "/Applications/Pulsar");
    let linux = default_install_path_for(false, false, "/home/me", None);
    assert_eq!(linux, format!("/home/me{0}.local{0}share{0}pulsar", std::path::MAIN_SEPARATOR));
    let windows = default_install_path_for(true, false, "/home/me", Some("/appdata"));
    assert!(windows.starts_with("/appdata") && windows.ends_with("Pulsar"), "{}", windows);
    assert!(windows.contains("Programs"), "{}", windows);
}

#[test]
fn search_roots_start_with_the_default_install_path() {
    for (windows, macos) in [(false, false), (false, true), (true, false)] {
        let roots = search_roots_for(windows, macos, "/home/me", Some("/appdata"));
        assert_eq!(roots.len(), 2);
        assert_eq!(roots[0], default_install_path_for(windows, macos, "/home/me", Some("/appdata")));
    }
    let linux = search_roots_for(false, false, "/home/me", None);
    assert_eq!(linux[1], format!("/home/me{0}.local{0}bin{0}pulsar", std::path::MAIN_SEPARATOR));
    assert_eq!(search_roots_for(true, false, "/home/me", None)[1], "C:\\Program Files\\Pulsar");
    assert_eq!(search_roots_for(false, true, "/home/me", None)[0], "/Applications/Pulsar");
}

#[test]
fn archive_root_is_flattened_only_for_a_lone_folder() {
    assert!(should_flatten_archive_root(0, 1));
    assert!(!should_flatten_archive_root(1, 1));
    assert!(!should_flatten_archive_root(0, 2));
    assert!(!should_flatten_archive_root(0, 0));
    assert!(hoists_archive_entry(Some("pulsar")));
    assert!(!hoists_archive_entry(Some("odd/")));
    assert!(hoists_archive_entry(None));
}

#[test]
fn finished_install_reports_the_outcome() {
    assert!(matches!(
        finished_install("0.2.0", Ok(())),
        FinishedInstall::Complete { ref version } if version == "0.2.0"
    ));
    assert!(matches!(
        finished_install("0.2.0", Err("disk full".to_string())),
        FinishedInstall::Failed { ref version, ref message } if version == "0.2.0" && message == "disk full"
    ));
}
