use pulsar_hub::plugins::{finish_plugin_install, plugin_install_plan, PluginInstallPlan};
use pulsar_hub::types::PluginInstallMethod;

#[test]
fn release_with_binary_is_downloaded_under_repo_and_tag() {
    let plan = plugin_install_plan(
        "fancy-plugin",
        Some(("v1.2".to_string(), Some("https://x/lib.so".to_string()))),
        "so",
    );
    match plan {
        Ok((tag, PluginInstallPlan::Download { url, library_name })) => {
            assert_eq!(tag, "v1.2");
            assert_eq!(url, "https://x/lib.so");
            assert_eq!(library_name, "fancy-plugin_v1.2.so");
        }
        other => panic!("unexpected plan {:?}", other),
    }
}

#[test]
fn release_without_binary_is_built_and_missing_release_fails() {
    assert!(matches!(
        plugin_install_plan("p", Some(("v2".to_string(), None)), "dll"),
        Ok((ref t, PluginInstallPlan::BuildFromSource)) if t == "v2"
    ));
    assert_eq!(plugin_install_plan("p", None, "dll").unwrap_err(), "No releases found");
}

#[test]
fn finished_install_records_plugin_or_failure() {
    let ok = finish_plugin_install(
        "P".to_string(),
        "https://github.com/o/p".to_string(),
        "v1".to_string(),
        "2024-01-01 00:00:00".to_string(),
        PluginInstallMethod::BuiltFromSource,
        Some("/plugins/p.so".to_string()),
    )
    .unwrap();
    assert_eq!(ok.name, "P");
    assert_eq!(ok.version, "v1");
    assert_eq!(ok.library_path, "/plugins/p.so");
    assert!(matches!(ok.install_method, PluginInstallMethod::BuiltFromSource));
    let failed = |method| {
        finish_plugin_install(
            "P".to_string(),
            "u".to_string(),
            "v1".to_string(),
            "t".to_string(),
            method,
            None,
        )
        .unwrap_err()
    };
    assert_eq!(failed(PluginInstallMethod::BinaryDownload), "Download failed");
    assert_eq!(failed(PluginInstallMethod::BuiltFromSource), "Build failed");
}
