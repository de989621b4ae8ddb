use pulsar_hub::launch_flags::{known_flags, LaunchFlags, FILE_NAME, HEADER_COMMENT};

fn known(env: &str) -> pulsar_hub::launch_flags::KnownFlag {
    known_flags()
        .into_iter()
        .find(|flag| flag.env == env)
        .expect("flag exists in the known flags")
}

#[test]
fn known_flag_defaults_mirror_the_engine() {
    let defaults: Vec<(&str, bool)> = known_flags()
        .iter()
        .map(|flag| (flag.env, flag.default_on))
        .collect();
    assert_eq!(
        defaults,
        vec![
            ("WGPUI_LAYERS", true),
            ("WGPUI_INSTANCES", true),
            ("WGPUI_PERSISTENT_LAYOUT", true),
            ("WGPUI_SLABS", true),
            ("WGPUI_SLAB_COMPACTION", true),
            ("WGPUI_OCCLUSION", true),
            ("WGPUI_RENDER_STATS", false),
            ("WGPUI_LAYER_DEBUG", false),
        ]
    );
}

#[test]
fn round_trips_toggles_through_disk() {
    let mut flags = LaunchFlags::default();
    flags.set("WGPUI_LAYERS", false);
    flags.set("WGPUI_RENDER_STATS", true);
    let text = flags.document_text().expect("save flags");

    let reloaded = LaunchFlags::parse(&text);
    assert!(!reloaded.checked(&known("WGPUI_LAYERS")));
    assert!(reloaded.checked(&known("WGPUI_RENDER_STATS")));
}

#[test]
fn missing_file_yields_engine_defaults() {
    let flags = LaunchFlags::default();
    for flag in known_flags() {
        assert_eq!(flags.checked(&flag), flag.default_on, "{}", flag.env);
    }
}

#[test]
fn corrupt_file_falls_back_to_defaults_without_panicking() {
    let flags = LaunchFlags::parse("[flags\nWGPUI_LAYERS ===");
    for flag in known_flags() {
        assert_eq!(flags.checked(&flag), flag.default_on, "{}", flag.env);
    }
}

#[test]
fn unknown_keys_are_preserved_across_rewrites() {
    let mut flags = LaunchFlags::parse(
        "# custom note\n\n[flags]\nWGPUI_FUTURE_FEATURE = \"on\"\nWGPUI_SLABS = false\n",
    );
    flags.set("WGPUI_LAYERS", false);
    let text = flags.document_text().expect("rewrite flags file");

    let reloaded = LaunchFlags::parse(&text);
    assert!(reloaded.extra("WGPUI_SLABS").is_none());
    assert_eq!(
        reloaded.extra("WGPUI_FUTURE_FEATURE"),
        Some(&toml::Value::String("on".to_string()))
    );

    let document = text.parse::<toml::Table>().expect("rewritten file parses");
    assert_eq!(
        document["flags"]["WGPUI_FUTURE_FEATURE"],
        toml::Value::String("on".to_string())
    );
    assert!(!reloaded.checked(&known("WGPUI_SLABS")));
    assert!(!reloaded.checked(&known("WGPUI_LAYERS")));
}

#[test]
fn applies_one_and_zero_with_occlusion_omitted_when_on() {
    let mut flags = LaunchFlags::default();
    flags.set("WGPUI_RENDER_STATS", true);
    flags.set("WGPUI_OCCLUSION", true);
    flags.set("WGPUI_LAYERS", false);
    let env = flags.env_assignments();

    let value = |name: &str| env.iter().find(|(key, _)| *key == name).map(|(_, v)| *v);
    assert_eq!(value("WGPUI_RENDER_STATS"), Some("1"));
    assert_eq!(value("WGPUI_LAYERS"), Some("0"));
    assert_eq!(
        value("WGPUI_OCCLUSION"),
        None,
        "occlusion on stays unset so the engine keeps its Normal mode"
    );
}

#[test]
fn occlusion_off_maps_to_zero() {
    let mut flags = LaunchFlags::default();
    flags.set("WGPUI_OCCLUSION", false);
    assert_eq!(flags.env_assignments(), vec![("WGPUI_OCCLUSION", "0")]);
}

#[test]
fn absent_file_changes_no_environment() {
    assert!(LaunchFlags::default().env_assignments().is_empty());
}

#[test]
fn assignments_follow_panel_order() {
    let mut flags = LaunchFlags::default();
    flags.set("WGPUI_LAYER_DEBUG", true);
    flags.set("WGPUI_LAYERS", true);
    flags.set("WGPUI_SLABS", false);
    assert_eq!(
        flags.env_assignments(),
        vec![("WGPUI_LAYERS", "1"), ("WGPUI_SLABS", "0"), ("WGPUI_LAYER_DEBUG", "1")]
    );
}

#[test]
fn reset_restores_defaults_and_keeps_extras() {
    let mut flags = LaunchFlags::parse("[flags]\nWGPUI_SLABS = false\nCUSTOM = 3\n");
    assert!(!flags.checked(&known("WGPUI_SLABS")));
    flags.reset_to_defaults();
    assert!(flags.checked(&known("WGPUI_SLABS")));
    assert_eq!(flags.extra("CUSTOM"), Some(&toml::Value::Integer(3)));
}

#[test]
fn non_boolean_known_flag_uses_default() {
    let flags = LaunchFlags::parse("[flags]\nWGPUI_RENDER_STATS = \"yes\"\n");
    assert!(!flags.checked(&known("WGPUI_RENDER_STATS")));
    assert!(flags.extra("WGPUI_RENDER_STATS").is_none());
}

#[test]
fn flags_that_are_not_a_table_give_defaults() {
    let flags = LaunchFlags::parse("flags = 3\n");
    assert!(flags.checked(&known("WGPUI_LAYERS")));
    assert!(flags.extra("flags").is_none());
}

#[test]
fn written_file_starts_with_header() {
    let mut flags = LaunchFlags::default();
    flags.set("WGPUI_SLABS", false);
    let text = flags.document_text().unwrap();
    assert!(text.starts_with(HEADER_COMMENT));
    assert!(text.contains("[flags]"));
    assert!(text.contains("WGPUI_SLABS = false"));
    assert_eq!(FILE_NAME, "launch-flags.toml");
}

#[test]
fn flags_without_extras_are_always_written() {
    assert!(LaunchFlags::default().document_text().is_ok());
    let mut flags = LaunchFlags::default();
    flags.set("WGPUI_LAYERS", true);
    flags.reset_to_defaults();
    assert!(flags.document_text().is_ok());
}

#[test]
fn default_flags_write_an_empty_flag_table() {
    let text = LaunchFlags::default().document_text().unwrap();
    assert_eq!(text, format!("{}[flags]\n", HEADER_COMMENT));
    let reread = LaunchFlags::parse(&text);
    for flag in known_flags() {
        assert_eq!(reread.checked(&flag), flag.default_on);
    }
}
