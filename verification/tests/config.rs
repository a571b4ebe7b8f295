use x11_primary_switcher::config::find_blocks;
use x11_primary_switcher::config::is_comment_line;
use x11_primary_switcher::config::read_preferred;
use x11_primary_switcher::config::read_preferred_from_config;
use x11_primary_switcher::config::Block;
use x11_primary_switcher::text::lines;

const START: &str = "Primary Monitor Start";
const END: &str = "Primary Monitor End";

#[test]
fn block_with_declaration_yields_its_value() {
    let content = "#! Primary Monitor Start !#\noutput \"X\"\n#! Primary Monitor End !#\n";
    assert_eq!(read_preferred(content, START, END), Some("X".to_string()));
}

#[test]
fn commented_declaration_yields_nothing() {
    let content = "#! Primary Monitor Start !#\n# output \"X\"\n#! Primary Monitor End !#\n";
    assert_eq!(read_preferred(content, START, END), None);
}

#[test]
fn second_block_is_used_when_first_is_commented() {
    let content = "# Primary Monitor Start\n  # output \"First\"\n# Primary Monitor End\n\
        output \"Outside\"\n\
        # Primary Monitor Start\n  output \"Second One\" resolution 1920x1080\n# Primary Monitor End\n";
    assert_eq!(read_preferred(content, START, END), Some("Second One".to_string()));
}

#[test]
fn unclosed_block_is_no_block() {
    let content = "# Primary Monitor Start\noutput \"X\"\n";
    assert_eq!(read_preferred(content, START, END), None);
    let all = lines(content);
    assert_eq!(find_blocks(&all, START, END), vec![]);
}

#[test]
fn blocks_do_not_overlap() {
    let content = "a\nS\nb\nS\nE\nE\nS\nc\nE";
    let all = lines(content);
    assert_eq!(
        find_blocks(&all, "S", "E"),
        vec![Block { start: 1, end: 5 }, Block { start: 6, end: 9 }]
    );
}

#[test]
fn missing_file_yields_nothing() {
    assert_eq!(read_preferred_from_config(None), None);
    assert_eq!(read_preferred_from_config(Some("")), None);
}

#[test]
fn default_markers_are_used() {
    let content = "#! Primary Monitor Start !#\n\toutput   \"Acer Technologies Acer XF270H B 0x9372943C\" resolution 1920x1080\n#! Primary Monitor End !#";
    assert_eq!(
        read_preferred_from_config(Some(content)),
        Some("Acer Technologies Acer XF270H B 0x9372943C".to_string())
    );
}

#[test]
fn comment_lines_are_told_apart() {
    assert!(is_comment_line("# x"));
    assert!(is_comment_line("   \t# x"));
    assert!(is_comment_line("\u{a0}#"));
    assert!(!is_comment_line("x # y"));
    assert!(!is_comment_line(""));
    assert!(!is_comment_line("   "));
}
