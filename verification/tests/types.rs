use pulsar_hub::download_manager::DownloadManagerView;
use pulsar_hub::types::{format_bytes, DownloadItem, DownloadKind, DownloadStatus};

fn float_reference(bytes: u64) -> String {
    const KB: u64 = 1024;
    const MB: u64 = 1024 * KB;
    const GB: u64 = 1024 * MB;
    const TB: u64 = 1024 * GB;
    const PB: u64 = 1024 * TB;
    if bytes >= PB {
        format!("{:.1} PB", bytes as f64 / PB as f64)
    } else if bytes >= TB {
        format!("{:.1} TB", bytes as f64 / TB as f64)
    } else if bytes >= GB {
        format!("{:.1} GB", bytes as f64 / GB as f64)
    } else if bytes >= MB {
        format!("{:.1} MB", bytes as f64 / MB as f64)
    } else if bytes >= KB {
        format!("{:.1} KB", bytes as f64 / KB as f64)
    } else {
        format!("{} B", bytes)
    }
}

#[test]
fn format_bytes_exact_values() {
    assert_eq!(format_bytes(0), "0 B");
    assert_eq!(format_bytes(512), "512 B");
    assert_eq!(format_bytes(1023), "1023 B");
    assert_eq!(format_bytes(1024), "1.0 KB");
    assert_eq!(format_bytes(1536), "1.5 KB");
    assert_eq!(format_bytes(1280), "1.2 KB");
    assert_eq!(format_bytes(1_048_576), "1.0 MB");
    assert_eq!(format_bytes(2 * 1024 * 1024 * 1024), "2.0 GB");
    assert_eq!(format_bytes(u64::MAX), "16384.0 PB");
}

#[test]
fn format_bytes_matches_float_formatting_small() {
    for b in 0..200_000u64 {
        assert_eq!(format_bytes(b), float_reference(b), "{}", b);
    }
}

#[test]
fn format_bytes_matches_float_formatting_at_ties_and_edges() {
    let units = [1u64 << 10, 1 << 20, 1 << 30, 1 << 40, 1 << 50];
    for &unit in &units {
        for whole in [1u64, 2, 3, 7, 10, 99, 100, 511, 1000, 1023] {
            for twentieths in 0..20u64 {
                let base = whole * unit + twentieths * (unit / 20);
                for delta in [-3i64, -2, -1, 0, 1, 2, 3] {
                    let b = (base as i64 + delta) as u64;
                    assert_eq!(format_bytes(b), float_reference(b), "{}", b);
                }
            }
        }
    }
    for shift in 0..64u32 {
        let p = 1u64 << shift;
        for b in [p, p - 1, p + 1, p.wrapping_mul(3) / 2, u64::MAX - p] {
            assert_eq!(format_bytes(b), float_reference(b), "{}", b);
        }
    }
}

#[test]
fn format_bytes_matches_float_formatting_spread() {
    let mut x: u64 = 0x9E37_79B9_7F4A_7C15;
    for _ in 0..200_000 {
        x = x.wrapping_mul(6364136223846793005).wrapping_add(1442695040888963407);
        let shift = (x >> 58) as u32;
        let b = x >> shift;
        assert_eq!(format_bytes(b), float_reference(b), "{}", b);
    }
}

fn item(kind: DownloadKind, status: DownloadStatus) -> DownloadItem {
    DownloadItem {
        id: "d1".to_string(),
        kind,
        status,
        started_at: std::time::Instant::now(),
    }
}

#[test]
fn download_item_texts() {
    let engine = item(
        DownloadKind::EngineVersion { version: "0.1.23".to_string() },
        DownloadStatus::Downloading { bytes_downloaded: 1536, total_bytes: 1_048_576, speed_bps: 2048 },
    );
    assert_eq!(engine.label(), "Engine v0.1.23");
    assert_eq!(engine.downloaded_display(), "1.5 KB / 1.0 MB");
    assert_eq!(engine.speed_display(), "2.0 KB/s");

    let template = item(
        DownloadKind::TemplateClone { name: "Blank".to_string() },
        DownloadStatus::Complete,
    );
    assert_eq!(template.label(), "Template: Blank");
    assert_eq!(template.downloaded_display(), "Complete");
    assert_eq!(template.speed_display(), "");

    let failed = item(
        DownloadKind::TemplateClone { name: "x".to_string() },
        DownloadStatus::Failed("disk full".to_string()),
    );
    assert_eq!(failed.downloaded_display(), "disk full");

    let idle = item(
        DownloadKind::EngineVersion { version: "1".to_string() },
        DownloadStatus::Downloading { bytes_downloaded: 0, total_bytes: 0, speed_bps: 0 },
    );
    assert_eq!(idle.speed_display(), "");
}

#[test]
fn download_manager_tracks_items() {
    let mut view = DownloadManagerView::new();
    let running = |id: &str| DownloadItem {
        id: id.to_string(),
        kind: DownloadKind::EngineVersion { version: id.to_string() },
        status: DownloadStatus::Downloading { bytes_downloaded: 0, total_bytes: 10, speed_bps: 0 },
        started_at: std::time::Instant::now(),
    };
    view.add_item(running("a"));
    view.add_item(running("b"));
    view.add_item(running("c"));
    assert_eq!(view.items[0].id, "c");
    assert_eq!(view.active_count(), 3);

    view.update_progress("b", 5, 10, 100);
    assert_eq!(
        view.items[1].status,
        DownloadStatus::Downloading { bytes_downloaded: 5, total_bytes: 10, speed_bps: 100 }
    );
    view.complete("a");
    view.fail("c", "network".to_string());
    view.complete("missing");
    assert_eq!(view.active_count(), 1);

    view.clear_completed();
    assert_eq!(view.items.len(), 1);
    assert_eq!(view.items[0].id, "b");
    assert_eq!(view.active_count(), 1);
}
