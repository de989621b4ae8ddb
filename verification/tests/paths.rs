use pulsar_hub::paths::{
    appdata_dir, cloud_intro_seen_path, normalize_project_path, plugins_dir, registries_dir,
    template_cache_dir,
};

#[test]
fn files_live_in_the_data_directory() {
    let base = appdata_dir();
    for (path, name) in [
        (plugins_dir(), "plugins"),
        (registries_dir(), "registries"),
        (template_cache_dir(), "TemplateCache"),
        (cloud_intro_seen_path(), "cloud_intro_seen"),
    ] {
        assert!(path.starts_with(&base), "{}", path);
        assert!(path.ends_with(name), "{}", path);
    }
}

#[test]
fn doubled_project_folder_is_collapsed() {
    assert_eq!(normalize_project_path("/home/me/Game/Game"), "/home/me/Game");
    assert_eq!(normalize_project_path("/home/me/Game/Other"), "/home/me/Game/Other");
    assert_eq!(normalize_project_path("Game"), "Game");
}

#[test]
fn data_directory_is_the_hubs_own() {
    let base = appdata_dir();
    assert!(
        base == "."
            || base.ends_with("pulsar_engine")
            || base.ends_with("com.Pulsar.Pulsar_Engine")
            || base.ends_with("data"),
        "{}",
        base
    );
}

#[test]
fn relative_and_empty_project_paths() {
    assert_eq!(normalize_project_path("Game/Game"), "Game");
    assert_eq!(normalize_project_path("Game/Other"), "Game/Other");
    assert_eq!(normalize_project_path(""), "");
    assert_eq!(normalize_project_path("/"), "/");
}

#[test]
fn deep_doubled_project_folder_is_collapsed() {
    assert_eq!(normalize_project_path("/home/me/game/game"), "/home/me/game");
    assert_eq!(normalize_project_path("/home/me/game"), "/home/me/game");
    assert_eq!(normalize_project_path("/a/a/a"), "/a/a");
}
