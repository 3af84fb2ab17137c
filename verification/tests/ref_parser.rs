use cards::markdown_parser::{parse_markdown, Highlighter};
use cards::ref_parser::{
    decode_card_ref, encode_card_ref, format_ref, parse_ref_parts, parse_refs,
    preprocess_refs_for_markdown, ref_query_at_cursor,
};

#[test]
fn parse_refs_finds_references_with_byte_offsets() {
    let content = "see [[Card A]] and [[Work / Plan]] end";
    let refs = parse_refs(content);
    assert_eq!(refs, vec![(4, 14, "Card A"), (19, 34, "Work / Plan")]);
}

#[test]
fn parse_refs_skips_blank_and_unclosed() {
    assert_eq!(parse_refs("a [[  ]] b [[x]]"), vec![(11, 16, "x")]);
    assert_eq!(parse_refs("[[open but never closed"), vec![]);
    assert_eq!(parse_refs(""), vec![]);
    assert_eq!(parse_refs("["), vec![]);
}

#[test]
fn parse_refs_closes_at_first_brackets_and_resumes_after() {
    // The reference ends at the first `]]`; scanning resumes after it.
    assert_eq!(parse_refs("[[a]]]]"), vec![(0, 5, "a")]);
    assert_eq!(parse_refs("[[[b]]"), vec![(0, 6, "[b")]);
}

#[test]
fn parse_refs_offsets_are_bytes_with_multibyte_text() {
    let content = "é [[über]]";
    let refs = parse_refs(content);
    assert_eq!(refs, vec![(3, 12, "über")]);
    assert_eq!(&content[refs[0].0..refs[0].1], "[[über]]");
}

#[test]
fn ref_query_at_cursor_reports_open_query() {
    assert_eq!(ref_query_at_cursor("hello [[wor", 11), Some((6, "wor".to_string())));
    assert_eq!(ref_query_at_cursor("hello [[wor", 100), Some((6, "wor".to_string())));
    assert_eq!(ref_query_at_cursor("hello [[", 8), Some((6, String::new())));
    assert_eq!(ref_query_at_cursor("[[a]] x", 7), None);
    assert_eq!(ref_query_at_cursor("no refs", 3), None);
    assert_eq!(ref_query_at_cursor("x [[ab]] [[cd", 10), None);
    assert_eq!(ref_query_at_cursor("x [[ab]] [[cd", 11), Some((9, String::new())));
    assert_eq!(ref_query_at_cursor("x [[ab]] [[cd", 13), Some((9, "cd".to_string())));
}

#[test]
fn parse_ref_parts_splits_board_and_title() {
    assert_eq!(parse_ref_parts("board / title"), (Some("board"), "title"));
    assert_eq!(parse_ref_parts("  My Board  /  x / y "), (Some("My Board"), "x / y"));
    assert_eq!(parse_ref_parts("  just a title "), (None, "just a title"));
    assert_eq!(parse_ref_parts("a/b"), (None, "a/b"));
}

#[test]
fn preprocess_rewrites_references_as_links() {
    assert_eq!(
        preprocess_refs_for_markdown("go to [[Plan]] now"),
        "go to [Plan](card-ref:Plan) now"
    );
    assert_eq!(
        preprocess_refs_for_markdown("[[a]][[b / c]]"),
        "[a](card-ref:a)[b / c](<card-ref:b / c>)"
    );
    assert_eq!(preprocess_refs_for_markdown("plain [[ ]] text"), "plain [[ ]] text");
    assert_eq!(preprocess_refs_for_markdown("a [[B]] c"), "a [B](card-ref:B) c");
    assert_eq!(preprocess_refs_for_markdown("[[x]][[y]]"), "[x](card-ref:x)[y](card-ref:y)");
    assert_eq!(preprocess_refs_for_markdown("[[a\tb]]"), "[a\tb](<card-ref:a\tb>)");
    assert_eq!(preprocess_refs_for_markdown("open [[ x"), "open [[ x");
}

#[test]
fn card_ref_urls() {
    assert_eq!(encode_card_ref("Plan"), "card-ref:Plan");
    assert_eq!(decode_card_ref("card-ref:Plan"), Some("Plan"));
    assert_eq!(decode_card_ref("card-ref:"), Some(""));
    assert_eq!(decode_card_ref("https://example.com"), None);
    assert_eq!(decode_card_ref("card"), None);
}

#[test]
fn card_ref_roundtrip_law() {
    for t in ["", "a", "Board / Title", "ünïcode ✓", "card-ref:x"] {
        let url = encode_card_ref(t);
        assert_eq!(decode_card_ref(&url), Some(t));
    }
}

#[test]
fn format_ref_builds_completions() {
    assert_eq!(format_ref(None, "Title"), "[[Title]]");
    assert_eq!(format_ref(Some("Board"), "Title"), "[[Board / Title]]");
}

#[test]
fn completion_is_read_back_as_reference_law() {
    for (board, title) in [(Some("Work"), "Plan"), (None, "Ideas"), (Some(" Ä "), " ö ")] {
        let s = format_ref(board, title);
        let refs = parse_refs(&s);
        assert_eq!(refs.len(), 1);
        assert_eq!((refs[0].0, refs[0].1), (0, s.len()));
        let (b, t) = parse_ref_parts(refs[0].2);
        assert_eq!(b, board.map(|x| x.trim()));
        assert_eq!(t, title.trim());
    }
}

#[test]
fn rewritten_link_target_decodes_to_reference_law() {
    let out = preprocess_refs_for_markdown("see [[Board / Idea]] now");
    assert_eq!(out, "see [Board / Idea](<card-ref:Board / Idea>) now");
    let start = out.find("](<").unwrap() + 3;
    let end = out.rfind(">)").unwrap();
    assert_eq!(decode_card_ref(&out[start..end]), Some("Board / Idea"));
}

#[test]
fn rewritten_reference_is_a_link_for_the_markdown_parser() {
    let h = Highlighter::new();
    let doc = parse_markdown(&h, &preprocess_refs_for_markdown("see [[Board / Idea]] now")).unwrap();
    let link = doc.lines[0].segments.iter().find(|s| s.link_url.is_some()).unwrap();
    assert_eq!(link.text, "Board / Idea");
    assert_eq!(decode_card_ref(link.link_url.as_deref().unwrap()), Some("Board / Idea"));
}

#[test]
fn bare_reference_target_is_a_link_for_the_markdown_parser() {
    let h = Highlighter::new();
    let doc = parse_markdown(&h, &preprocess_refs_for_markdown("a [[Plan]] c")).unwrap();
    let link = doc.lines[0].segments.iter().find(|s| s.link_url.is_some()).unwrap();
    assert_eq!(link.text, "Plan");
    assert_eq!(decode_card_ref(link.link_url.as_deref().unwrap()), Some("Plan"));
}
