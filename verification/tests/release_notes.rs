use pulsar_hub::release_notes::{
    extract_first_section_after_container_images, extract_highlights, extract_summary,
    heading_text, is_heading, lines_of,
};

fn chars(s: &str) -> Vec<char> {
    s.chars().collect()
}

#[test]
fn highlights_run_to_next_heading() {
    let notes = "# Pulsar 0.2\n\nIntro text.\n\n## Highlights\n- Faster builds\n- New editor\n\n## Fixes\n- crash\n";
    assert_eq!(
        extract_highlights(notes),
        "## Highlights\n- Faster builds\n- New editor"
    );
}

#[test]
fn highlights_heading_matches_in_any_case_and_level() {
    let notes = "### ✨ HIGHLIGHTS of this release ✨\nline one\n# Next";
    assert_eq!(
        extract_highlights(notes),
        "### ✨ HIGHLIGHTS of this release ✨\nline one"
    );
}

#[test]
fn highlights_absent_is_empty() {
    assert_eq!(extract_highlights("## Changes\n- a\n"), "");
    assert_eq!(extract_highlights(""), "");
    assert_eq!(extract_highlights("Highlights without a heading\n"), "");
}

#[test]
fn highlights_run_to_end_without_next_heading() {
    assert_eq!(
        extract_highlights("intro\n## Highlights\n  a\n  b  \n\n"),
        "## Highlights\n  a\n  b"
    );
}

#[test]
fn crlf_lines_are_split() {
    assert_eq!(
        extract_highlights("## Highlights\r\n- a\r\n## Other\r\n"),
        "## Highlights\n- a"
    );
}

#[test]
fn section_after_last_container_images() {
    let notes = "## Container Images\nghcr.io/a\n## Notes\nold\n## container images\nghcr.io/b\n\n## What's new\n- shiny\n## Checksums\nabc";
    assert_eq!(
        extract_first_section_after_container_images(notes),
        "## What's new\n- shiny"
    );
}

#[test]
fn container_images_without_following_section_is_empty() {
    assert_eq!(
        extract_first_section_after_container_images("## Container Images\nghcr.io/a\n"),
        ""
    );
    assert_eq!(extract_first_section_after_container_images("## Notes\n"), "");
}

#[test]
fn summary_prefers_highlights() {
    let notes = "## Container Images\nx\n## After\ny\n## Highlights\nz";
    assert_eq!(extract_summary(notes), "## Highlights\nz");
    let fallback = "## Container Images\nx\n## After\ny\n";
    assert_eq!(extract_summary(fallback), "## After\ny");
    assert_eq!(extract_summary("plain text"), "");
}

#[test]
fn heading_text_strips_markers() {
    assert_eq!(heading_text(&chars("  ##  Title ")), Some(chars("Title ")));
    assert_eq!(heading_text(&chars("#")), Some(chars("")));
    assert_eq!(heading_text(&chars("Title")), None);
    assert!(is_heading(&chars("   # x")));
    assert!(!is_heading(&chars("x #")));
}

#[test]
fn lines_follow_str_lines() {
    for text in ["", "a", "a\n", "a\n\nb", "a\r\nb\r", "\n", "\r\n\r\n", "x\ry\n"] {
        let expected: Vec<Vec<char>> = text.lines().map(|l| l.chars().collect()).collect();
        assert_eq!(lines_of(text), expected, "{:?}", text);
    }
}
