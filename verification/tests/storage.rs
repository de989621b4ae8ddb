use pulsar_hub::storage::{order_by_size, repo_health, storage_totals, ProjectDiskStats};

fn float_reference(working: u64, git: u64) -> (&'static str, &'static str) {
    let total = working + git;
    let ratio = if total == 0 { 0.0 } else { git as f32 / total as f32 };
    if total == 0 {
        ("Empty", "muted")
    } else if ratio < 0.2 {
        ("Healthy", "success")
    } else if ratio < 0.5 {
        ("Large history", "warning")
    } else {
        ("Bloaty", "danger")
    }
}

fn stats(working: u64, git: u64) -> ProjectDiskStats {
    ProjectDiskStats { path: "/p".to_string(), working_bytes: working, git_bytes: git }
}

#[test]
fn repo_health_labels() {
    assert_eq!(repo_health(&stats(0, 0)), ("Empty", "muted"));
    assert_eq!(repo_health(&stats(100, 0)), ("Healthy", "success"));
    assert_eq!(repo_health(&stats(81, 19)), ("Healthy", "success"));
    assert_eq!(repo_health(&stats(80, 20)), ("Large history", "warning"));
    assert_eq!(repo_health(&stats(51, 49)), ("Large history", "warning"));
    assert_eq!(repo_health(&stats(50, 50)), ("Bloaty", "danger"));
    assert_eq!(repo_health(&stats(0, 7)), ("Bloaty", "danger"));
    assert_eq!(stats(3, 4).total_bytes(), 7);
}

#[test]
fn repo_health_matches_f32_arithmetic_near_thresholds() {
    let mut totals: Vec<u64> = (1..3000).collect();
    for shift in 20..64u32 {
        let p = 1u64 << shift;
        totals.extend([p - 1, p, p + 1, p + 3, p / 5 * 7, p / 3 * 5 + 11]);
    }
    for &total in &totals {
        let fifth = total / 5;
        let half = total / 2;
        for center in [fifth, half] {
            for delta in -4i64..=4 {
                let g = center as i64 + delta;
                if g < 0 || g as u64 > total {
                    continue;
                }
                let git = g as u64;
                let working = total - git;
                assert_eq!(
                    repo_health(&stats(working, git)),
                    float_reference(working, git),
                    "working {} git {}",
                    working,
                    git
                );
            }
        }
    }
}

#[test]
fn repo_health_matches_f32_arithmetic_spread() {
    let mut x: u64 = 0x1234_5678_9ABC_DEF1;
    for _ in 0..300_000 {
        x = x.wrapping_mul(6364136223846793005).wrapping_add(1442695040888963407);
        let shift = (x >> 59) as u32 + 1;
        let total = (x >> shift).max(1);
        x = x.wrapping_mul(6364136223846793005).wrapping_add(1442695040888963407);
        let git = x % (total + 1).max(1);
        let working = total - git;
        assert_eq!(
            repo_health(&stats(working, git)),
            float_reference(working, git),
            "working {} git {}",
            working,
            git
        );
    }
}

#[test]
fn storage_page_orders_and_sums() {
    let row = |path: &str, w: u64, g: u64| ProjectDiskStats { path: path.to_string(), working_bytes: w, git_bytes: g };
    let mut rows = vec![row("a", 10, 0), row("b", 5, 50), row("c", 0, 10), row("d", 30, 25)];
    let mut expected = rows.clone();
    expected.sort_by(|a, b| b.total_bytes().cmp(&a.total_bytes()));
    order_by_size(&mut rows);
    let order: Vec<&str> = rows.iter().map(|r| r.path.as_str()).collect();
    let reference: Vec<&str> = expected.iter().map(|r| r.path.as_str()).collect();
    assert_eq!(order, reference);
    assert_eq!(order, vec!["b", "d", "a", "c"]);
    assert_eq!(storage_totals(&rows), (130, 85));
    assert_eq!(storage_totals(&vec![]), (0, 0));
}
