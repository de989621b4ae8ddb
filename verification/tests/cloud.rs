use pulsar_hub::cloud::{project_subtitle, server_address_line};
use pulsar_hub::cloud::{
    next_cloud_intro_page, normalize_url, prev_cloud_intro_page, project_status_label,
    remove_cloud_server, server_activity, server_status_label, set_cloud_intro_page, IntroStep,
};
use pulsar_hub::types::{CloudProjectStatus, CloudServer, CloudServerStatus};

#[test]
fn normalize_url_adds_scheme_and_strips_slashes() {
    assert_eq!(normalize_url("  example.com:8080/// "), "http://example.com:8080");
    assert_eq!(normalize_url("https://cloud.example.com/"), "https://cloud.example.com");
    assert_eq!(normalize_url("http://10.0.0.2"), "http://10.0.0.2");
    assert_eq!(normalize_url("HTTP://x"), "http://HTTP://x");
    assert_eq!(normalize_url(""), "http://");
}

#[test]
fn intro_pages() {
    assert!(matches!(next_cloud_intro_page(0), IntroStep::Page(1)));
    assert!(matches!(next_cloud_intro_page(1), IntroStep::Page(2)));
    assert!(matches!(next_cloud_intro_page(2), IntroStep::Close));
    assert_eq!(prev_cloud_intro_page(0), 0);
    assert_eq!(prev_cloud_intro_page(2), 1);
    assert_eq!(set_cloud_intro_page(7), 2);
    assert_eq!(set_cloud_intro_page(1), 1);
}

#[test]
fn removing_servers() {
    let server = |alias: &str| CloudServer { alias: alias.to_string(), ..CloudServer::default() };
    let mut servers = vec![server("a"), server("b"), server("c")];
    let mut selected = Some(1);
    assert!(remove_cloud_server(&mut servers, &mut selected, 1));
    assert_eq!(selected, None);
    assert_eq!(servers.iter().map(|s| s.alias.as_str()).collect::<Vec<_>>(), vec!["a", "c"]);
    let mut selected = Some(0);
    assert!(remove_cloud_server(&mut servers, &mut selected, 1));
    assert_eq!(selected, Some(0));
    assert!(!remove_cloud_server(&mut servers, &mut selected, 5));
    assert_eq!(servers.len(), 1);
}

#[test]
fn status_lines() {
    let online = CloudServerStatus::Online {
        latency_ms: 42,
        version: "1".to_string(),
        active_users: 3,
        active_projects: 7,
    };
    assert_eq!(server_status_label(&online), "Online \u{00B7} 42ms");
    assert_eq!(server_status_label(&CloudServerStatus::Connecting), "Connecting\u{2026}");
    assert_eq!(server_status_label(&CloudServerStatus::Unauthorized), "Unauthorized");
    assert_eq!(server_activity(&online), (3, 7));
    assert_eq!(server_activity(&CloudServerStatus::Offline), (0, 0));
    assert_eq!(
        project_status_label(&CloudProjectStatus::Running { user_count: 12 }),
        ("Running (12)".to_string(), false, None)
    );
    assert_eq!(
        project_status_label(&CloudProjectStatus::Preparing),
        ("Preparing\u{2026}".to_string(), true, None)
    );
    assert_eq!(
        project_status_label(&CloudProjectStatus::Error("boom".to_string())),
        ("Error".to_string(), false, Some("boom".to_string()))
    );
}

#[test]
fn server_address_line_shows_reported_version() {
    let online = |version: &str| CloudServerStatus::Online {
        latency_ms: 5,
        version: version.to_string(),
        active_users: 0,
        active_projects: 0,
    };
    assert_eq!(server_address_line("https://s", &online("1.4")), "https://s \u{00B7} v1.4");
    assert_eq!(server_address_line("https://s", &online("?")), "https://s");
    assert_eq!(server_address_line("https://s", &online("")), "https://s");
    assert_eq!(server_address_line("https://s", &CloudServerStatus::Offline), "https://s");
}

#[test]
fn project_subtitle_joins_description_and_owner() {
    assert_eq!(project_subtitle("A game", "alice"), "A game \u{00B7} alice");
    assert_eq!(project_subtitle("", "alice"), "alice");
}
