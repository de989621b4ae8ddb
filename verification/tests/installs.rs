use pulsar_hub::installer::{InstalledVersion, PulsarInstallMetadata};
use pulsar_hub::installs::{sort_newest_install_first, with_source_engine};

fn installed(version: &str, date: &str) -> InstalledVersion {
    InstalledVersion {
        metadata: PulsarInstallMetadata {
            version: version.to_string(),
            install_date: date.to_string(),
            install_path: format!("/e/{}", version),
        },
        disk_size_bytes: 1,
        update_available: false,
    }
}

fn versions(v: &[InstalledVersion]) -> Vec<&str> {
    v.iter().map(|x| x.metadata.version.as_str()).collect()
}

#[test]
fn newest_install_first_is_stable_and_matches_string_order() {
    let mut v = vec![
        installed("a", "2024-01-02"),
        installed("b", ""),
        installed("c", "2024-05-01"),
        installed("d", "2024-01-02"),
        installed("e", "2024-01-02T10"),
        installed("f", "é"),
    ];
    let mut expected = v.clone();
    expected.sort_by(|a, b| b.metadata.install_date.cmp(&a.metadata.install_date));
    sort_newest_install_first(&mut v);
    assert_eq!(versions(&v), versions(&expected));
    assert_eq!(versions(&v), vec!["f", "c", "e", "a", "d", "b"]);
}

#[test]
fn source_engine_replaces_scanned_src() {
    let scanned = vec![installed("src", "2020"), installed("0.1.0", "2023"), installed("0.2.0", "2025")];
    let all = with_source_engine(scanned, "/home/me/engine".to_string(), "2024".to_string());
    assert_eq!(versions(&all), vec!["0.2.0", "src", "0.1.0"]);
    assert_eq!(all[1].metadata.install_path, "/home/me/engine");
    assert_eq!(all[1].disk_size_bytes, 0);
}
