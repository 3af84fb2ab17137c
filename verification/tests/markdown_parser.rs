use cards::markdown_parser::{parse_markdown, Highlighter};
use cards::text_document::TextDocument;

fn texts(doc: &TextDocument) -> Vec<String> {
    doc.lines.iter().map(|l| l.segments.iter().map(|s| s.text.as_str()).collect()).collect()
}

#[test]
fn ordered_items_are_numbered_from_the_start() {
    let h = Highlighter::new();
    let d = parse_markdown(&h, "1. a\n2. b").unwrap();
    assert_eq!(texts(&d), vec!["1. a", "2. b"]);
    let d = parse_markdown(&h, "3. x").unwrap();
    assert_eq!(texts(&d), vec!["3. x"]);
    let d = parse_markdown(&h, "0. x\n1. y").unwrap();
    assert_eq!(texts(&d), vec!["0. x", "1. y"]);
}

#[test]
fn task_items_of_every_marker_are_numbered_in_order() {
    let h = Highlighter::new();
    let d = parse_markdown(&h, "* [ ] a\n- [ ] b").unwrap();
    let numbers: Vec<usize> =
        d.lines.iter().filter_map(|l| l.checkbox.map(|c| c.line_index)).collect();
    assert_eq!(numbers, vec![0, 1]);
    // The same number toggles that checkbox in the text.
    assert_eq!(cards::checkbox::toggle_checkbox_markdown("* [ ] a\n- [ ] b", 1), "* [ ] a\n- [x] b");
}

#[test]
fn code_blocks_are_coloured_when_their_language_is_known() {
    let h = Highlighter::new();
    let d = parse_markdown(&h, "```rust\nfn main() {}\n```").unwrap();
    assert!(d.lines[0].segments.iter().all(|s| s.style.is_code && s.style.color.is_some()));
    assert_eq!(texts(&d)[0], "fn main() {}");
    let d = parse_markdown(&h, "```nosuchlanguage\nplain text\n```").unwrap();
    assert!(d.lines[0].segments.iter().all(|s| s.style.is_code && s.style.color.is_none()));
    assert_eq!(texts(&d)[0], "plain text");
}

#[test]
fn headings_emphasis_and_links() {
    let h = Highlighter::new();
    let d = parse_markdown(&h, "# Title\n\nSome **bold** and [a link](https://x.org)").unwrap();
    assert_eq!(texts(&d), vec!["Title", "Some bold and a link"]);
    let p = &d.lines[1];
    assert!(p.segments[1].style.bold);
    assert_eq!(p.segments[3].link_url.as_deref(), Some("https://x.org"));
}
