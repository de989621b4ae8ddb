use pulsar_hub::source_build::src_crate_count;
use pulsar_hub::installer::BuildProgress;
use pulsar_hub::source_build::{
    apply_cargo_json_line, apply_cargo_text_line, build_failure_message,
};

#[test]
fn artifacts_are_counted_once() {
    let mut p = BuildProgress::default();
    let line = r#"{"reason":"compiler-artifact","target":{"name":"serde"}}"#;
    apply_cargo_json_line(&mut p, line);
    apply_cargo_json_line(&mut p, line);
    apply_cargo_json_line(&mut p, r#"{"reason":"compiler-artifact","target":{}}"#);
    assert_eq!(p.done, 2);
    assert_eq!(p.current, "Compiling crate");
    assert_eq!(p.logs, vec!["Compiled serde", "Compiled serde", "Compiled crate"]);
}

#[test]
fn messages_and_noise_are_logged() {
    let mut p = BuildProgress::default();
    apply_cargo_json_line(&mut p, "   ");
    assert!(p.logs.is_empty());
    apply_cargo_json_line(&mut p, "  not json  ");
    apply_cargo_json_line(
        &mut p,
        r#"{"reason":"compiler-message","message":{"rendered":"warning: x\n\n"}}"#,
    );
    apply_cargo_json_line(&mut p, r#"{"reason":"build-script-executed","message":"ignored"}"#);
    apply_cargo_json_line(&mut p, r#"{"reason":"other","message":"hi"}"#);
    apply_cargo_json_line(&mut p, r#"{"reason":"other"}"#);
    assert_eq!(p.logs, vec!["not json", "warning: x", "\"hi\""]);
}

#[test]
fn build_finished_records_outcome() {
    let mut p = BuildProgress::default();
    apply_cargo_json_line(&mut p, r#"{"reason":"build-finished","success":true}"#);
    assert!(p.finished);
    assert_eq!(p.current, "Done");
    assert!(p.error.is_none());

    let mut q = BuildProgress::default();
    apply_cargo_json_line(&mut q, r#"{"reason":"build-finished","success":false}"#);
    assert_eq!(q.error.as_deref(), Some("cargo build failed"));
    assert_eq!(q.current, "Build failed");

    let mut r = BuildProgress::default();
    apply_cargo_text_line(&mut r, "error: linking failed");
    apply_cargo_json_line(&mut r, r#"{"reason":"build-finished"}"#);
    assert_eq!(r.error.as_deref(), Some("error: linking failed"));
    assert_eq!(build_failure_message(&r), "error: linking failed");
    assert_eq!(build_failure_message(&BuildProgress::default()), "cargo build failed");
}

#[test]
fn text_lines_update_current_unless_compiling() {
    let mut p = BuildProgress::default();
    apply_cargo_text_line(&mut p, "  Updating index  ");
    assert_eq!(p.current, "Updating index");
    p.current = "Compiling foo".to_string();
    apply_cargo_text_line(&mut p, "Downloaded bar");
    assert_eq!(p.current, "Compiling foo");
    apply_cargo_text_line(&mut p, "\n");
    assert_eq!(p.logs, vec!["Updating index", "Downloaded bar"]);
}

#[test]
fn crate_count_reads_cargo_metadata() {
    assert_eq!(src_crate_count(true, br#"{"packages":[{"name":"a"},{"name":"b"}]}"#), Some(2));
    assert_eq!(src_crate_count(false, br#"{"packages":[{"name":"a"}]}"#), None);
    assert_eq!(src_crate_count(true, b"not json"), None);
    assert_eq!(src_crate_count(true, br#"{"packages":{}}"#), None);
}
