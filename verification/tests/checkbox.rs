use cards::checkbox::{toggle_checkbox_in_text, toggle_checkbox_markdown};

#[test]
fn toggle_markdown_checks_and_unchecks() {
    let text = "- [ ] a\n  - [x] b\nplain\n- [X] c";
    assert_eq!(toggle_checkbox_markdown(text, 0), "- [x] a\n  - [x] b\nplain\n- [X] c");
    assert_eq!(toggle_checkbox_markdown(text, 1), "- [ ] a\n  - [ ] b\nplain\n- [X] c");
    assert_eq!(toggle_checkbox_markdown(text, 2), "- [ ] a\n  - [x] b\nplain\n- [ ] c");
}

#[test]
fn toggle_markdown_keeps_final_newline() {
    assert_eq!(toggle_checkbox_markdown("- [ ] a\n", 0), "- [x] a\n");
    assert_eq!(toggle_checkbox_markdown("", 0), "");
}

#[test]
fn toggle_markdown_out_of_range_keeps_text_law() {
    for text in ["- [ ] a\nb", "x\n\n- [x] y\n", "", "\n"] {
        assert_eq!(toggle_checkbox_markdown(text, 5), text);
    }
}

#[test]
fn toggle_markdown_drops_carriage_returns_of_line_endings() {
    assert_eq!(toggle_checkbox_markdown("- [ ] a\r\nb\r\n", 0), "- [x] a\nb\n");
}

#[test]
fn toggle_markdown_replaces_first_occurrence_only() {
    assert_eq!(toggle_checkbox_markdown("- [ ] a - [ ] b", 0), "- [x] a - [ ] b");
}

#[test]
fn toggle_in_text_counts_across_blocks() {
    let text = "intro <md>- [ ] a\n- [ ] b</md> mid <md>- [x] c</md> end";
    assert_eq!(
        toggle_checkbox_in_text(text, 2),
        "intro <md>- [ ] a\n- [ ] b</md> mid <md>- [ ] c</md> end"
    );
    assert_eq!(
        toggle_checkbox_in_text(text, 1),
        "intro <md>- [ ] a\n- [x] b</md> mid <md>- [x] c</md> end"
    );
}

#[test]
fn toggle_in_text_flips_only_the_leading_box() {
    assert_eq!(
        toggle_checkbox_in_text("<md>- [ ] a - [ ] b</md>", 0),
        "<md>- [x] a - [ ] b</md>"
    );
}

#[test]
fn toggle_in_text_without_blocks_or_with_unclosed_block() {
    assert_eq!(toggle_checkbox_in_text("- [ ] plain", 0), "- [ ] plain");
    assert_eq!(toggle_checkbox_in_text("a<md>- [ ] b", 0), "a<md><md>- [ ] b");
}

#[test]
fn toggle_markdown_flips_box_law() {
    // Each checkbox flips, whatever else the line holds.
    let cases = [
        ("- [ ] a", "- [x] a"),
        ("   - [x] b - [X]", "   - [ ] b - [X]"),
        ("\t- [X] c - [x] d", "\t- [ ] c - [x] d"),
        ("- [x] e - [ ] f", "- [ ] e - [ ] f"),
    ];
    for (line, toggled) in cases {
        assert_eq!(toggle_checkbox_markdown(line, 0), toggled);
        let ticked_before = !line.trim_start().starts_with("- [ ]");
        let ticked_after = !toggled.trim_start().starts_with("- [ ]");
        assert_ne!(ticked_before, ticked_after);
    }
}

#[test]
fn toggle_in_text_flips_single_box_law() {
    for (line, toggled) in [("- [ ] a", "- [x] a"), (" - [X] b", " - [ ] b"), ("- [x] c", "- [ ] c")] {
        let text = format!("<md>{}</md>", line);
        assert_eq!(toggle_checkbox_in_text(&text, 0), format!("<md>{}</md>", toggled));
    }
    // A second box on the line is text, and stays as it is.
    assert_eq!(
        toggle_checkbox_in_text("<md>- [x] a - [ ] b</md>", 0),
        "<md>- [ ] a - [ ] b</md>"
    );
}

#[test]
fn checkboxes_of_every_list_marker_are_numbered() {
    let text = "* [ ] a\n- [ ] b";
    assert_eq!(toggle_checkbox_markdown(text, 1), "* [ ] a\n- [x] b");
    assert_eq!(toggle_checkbox_markdown(text, 0), "* [x] a\n- [ ] b");
    let text = "1. [x] one\n+ [X] two\n12) [ ] three\n1234567890. [ ] not a list item";
    assert_eq!(
        toggle_checkbox_markdown(text, 0),
        "1. [ ] one\n+ [X] two\n12) [ ] three\n1234567890. [ ] not a list item"
    );
    assert_eq!(
        toggle_checkbox_markdown(text, 1),
        "1. [x] one\n+ [ ] two\n12) [ ] three\n1234567890. [ ] not a list item"
    );
    assert_eq!(
        toggle_checkbox_markdown(text, 2),
        "1. [x] one\n+ [X] two\n12) [x] three\n1234567890. [ ] not a list item"
    );
    assert_eq!(toggle_checkbox_markdown(text, 3), text);
    // Not a task item: no space between marker and box, or no closing bracket.
    assert_eq!(toggle_checkbox_markdown("-[ ] a\n- [ a", 0), "-[ ] a\n- [ a");
}

#[test]
fn toggle_twice_law() {
    for text in ["- [ ] a", "  3. [x] b", "* [ ] c\n+ [x] d"] {
        for k in 0..2 {
            assert_eq!(toggle_checkbox_markdown(&toggle_checkbox_markdown(text, k), k), text);
        }
    }
}

#[test]
fn text_without_blocks_is_kept_law() {
    for text in ["- [ ] a", "* [x] b\n1. [ ] c", "", "<m d> - [ ] x"] {
        for k in 0..3 {
            assert_eq!(toggle_checkbox_in_text(text, k), text);
        }
    }
}
