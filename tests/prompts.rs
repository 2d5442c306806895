use agent::prompts::{layout_header, layout_line, layout_line_with_size, LAYOUT_FOOTER, RULES, SYSTEM_PROMPT};

#[test]
fn layout_lines_are_indented_by_depth() {
    assert_eq!(layout_line_with_size(2, "main.rs", false, "1.2 kB"), "    - main.rs (1.2 kB)\n");
    assert_eq!(layout_line_with_size(1, "src", true, "ignored"), "  - src/\n");
    assert_eq!(layout_line_with_size(0, "x", false, ""), "- x ()\n");
}

#[test]
fn layout_sizes_are_written_in_decimal_units() {
    assert_eq!(layout_line(1, "a.txt", false, 1500), "  - a.txt (1.50 kB)\n");
    assert_eq!(layout_line(1, "b.txt", false, 999), "  - b.txt (999 B)\n");
    assert_eq!(layout_line(3, "c.bin", false, 2_000_000), "      - c.bin (2 MB)\n");
    assert_eq!(layout_line(1, "docs", true, 4096), "  - docs/\n");
}

#[test]
fn layout_is_framed() {
    let header = layout_header("/work");
    assert!(header.starts_with("<project_layout>\n"));
    assert!(header.ends_with("\n\n/work\n"));
    assert_eq!(LAYOUT_FOOTER, "</project_layout>\n");
    assert!(SYSTEM_PROMPT.contains("agentic AI coding assistant"));
    assert!(RULES.contains("language specifiers"));
}
