use cards::markdown::{
    build_document, code_blocks_of, HighlightSpan, MdEvent, MdTag, MdTagEnd,
};
use cards::text_document::{CheckboxItem, Rgb, TextDocument, TextLine, TextSize, TextStyle};

fn text(s: &str) -> MdEvent {
    MdEvent::Text(s.to_string())
}

fn seg_texts(line: &TextLine) -> Vec<String> {
    line.segments.iter().map(|s| s.text.clone()).collect()
}

fn doc_texts(doc: &TextDocument) -> Vec<Vec<String>> {
    doc.lines.iter().map(seg_texts).collect()
}

#[test]
fn heading_and_paragraph() {
    let events = vec![
        MdEvent::Start(MdTag::Heading(1)),
        text("Title"),
        MdEvent::End(MdTagEnd::Heading),
        MdEvent::Start(MdTag::Paragraph),
        text("Hello "),
        MdEvent::Start(MdTag::Strong),
        text("world"),
        MdEvent::End(MdTagEnd::Strong),
        MdEvent::End(MdTagEnd::Paragraph),
    ];
    let doc = build_document(&events, &vec![]);
    assert_eq!(doc_texts(&doc), vec![vec!["Title"], vec!["Hello ", "world"]]);
    let h = &doc.lines[0];
    assert_eq!(h.segments[0].style.size, TextSize::Heading(1));
    assert!(h.segments[0].style.bold);
    assert_eq!((h.spacing_before, h.spacing_after), (8, 4));
    let p = &doc.lines[1];
    assert_eq!(p.spacing_before, 4);
    assert!(!p.segments[0].style.bold);
    assert!(p.segments[1].style.bold);
    assert_eq!(p.segments[1].style.size, TextSize::Base);
}

#[test]
fn lists_get_bullets_and_numbers() {
    let events = vec![
        MdEvent::Start(MdTag::List(None)),
        MdEvent::Start(MdTag::Item),
        text("one"),
        MdEvent::Start(MdTag::List(Some(7))),
        MdEvent::Start(MdTag::Item),
        text("seven"),
        MdEvent::End(MdTagEnd::Item),
        MdEvent::Start(MdTag::Item),
        text("eight"),
        MdEvent::End(MdTagEnd::Item),
        MdEvent::End(MdTagEnd::List),
        MdEvent::End(MdTagEnd::Item),
        MdEvent::End(MdTagEnd::List),
    ];
    let doc = build_document(&events, &vec![]);
    assert_eq!(
        doc_texts(&doc),
        vec![vec!["\u{2022} one"], vec!["7. seven"], vec!["8. eight"]]
    );
    assert_eq!(doc.lines[0].indent, 16);
    assert_eq!(doc.lines[1].indent, 32);
}

#[test]
fn task_list_markers_become_numbered_checkboxes() {
    let events = vec![
        MdEvent::Start(MdTag::List(None)),
        MdEvent::Start(MdTag::Item),
        MdEvent::TaskListMarker(false),
        text("todo"),
        MdEvent::End(MdTagEnd::Item),
        MdEvent::Start(MdTag::Item),
        MdEvent::TaskListMarker(true),
        text("done"),
        MdEvent::End(MdTagEnd::Item),
        MdEvent::End(MdTagEnd::List),
    ];
    let doc = build_document(&events, &vec![]);
    assert_eq!(doc_texts(&doc), vec![vec!["todo"], vec!["done"]]);
    assert_eq!(doc.lines[0].checkbox, Some(CheckboxItem { checked: false, line_index: 0 }));
    assert_eq!(doc.lines[1].checkbox, Some(CheckboxItem { checked: true, line_index: 1 }));
}

#[test]
fn code_blocks_plain_and_highlighted() {
    let events = vec![
        MdEvent::Start(MdTag::FencedCodeBlock("rust".to_string())),
        text("let x = 1;\nlet y = 2;\n"),
        MdEvent::End(MdTagEnd::CodeBlock),
        MdEvent::Start(MdTag::FencedCodeBlock(String::new())),
        text("a\nb"),
        MdEvent::End(MdTagEnd::CodeBlock),
    ];
    let blocks = code_blocks_of(&events);
    assert_eq!(blocks.len(), 2);
    assert_eq!(blocks[0].language.as_deref(), Some("rust"));
    assert_eq!(blocks[0].code, "let x = 1;\nlet y = 2;\n");
    assert_eq!(blocks[1].language, None);

    // Without answers, both blocks are shown plain, line by line.
    let plain = build_document(&events, &vec![]);
    assert_eq!(
        doc_texts(&plain),
        vec![
            vec!["let x = 1;"],
            vec!["let y = 2;"],
            vec![],
            vec!["a"],
            vec!["b"],
            vec![]
        ]
    );
    assert!(plain.lines[0].segments[0].style.is_code);
    assert_eq!(plain.lines[0].segments[0].style.size, TextSize::Default);
    assert_eq!((plain.lines[0].indent, plain.lines[0].spacing_before), (10, 2));

    // A highlighted answer colours the spans and drops line endings and empty spans.
    let red = Rgb { r: 200, g: 0, b: 0 };
    let answer = Some(vec![
        vec![
            HighlightSpan { color: red, text: "let".to_string() },
            HighlightSpan { color: red, text: " x = 1;\n".to_string() },
        ],
        vec![HighlightSpan { color: red, text: "\n".to_string() }],
    ]);
    let doc = build_document(&events, &vec![answer, None]);
    assert_eq!(
        doc_texts(&doc),
        vec![vec!["let", " x = 1;"], vec![], vec![], vec!["a"], vec!["b"], vec![]]
    );
    assert_eq!(doc.lines[0].segments[0].style.color, Some(red));
}

#[test]
fn display_math_and_inline_math() {
    let events = vec![
        MdEvent::Start(MdTag::Paragraph),
        text("see "),
        MdEvent::InlineMath("x^2".to_string()),
        MdEvent::End(MdTagEnd::Paragraph),
        MdEvent::Start(MdTag::FencedCodeBlock(" math ".to_string())),
        text("a + b\nc"),
        MdEvent::End(MdTagEnd::CodeBlock),
    ];
    let doc = build_document(&events, &vec![]);
    assert_eq!(doc_texts(&doc), vec![vec!["see ", "x^2"], vec!["a + b"], vec!["c"]]);
    assert!(doc.lines[0].segments[1].style.is_math);
    assert!(doc.lines[1].is_math_block);
    assert!(code_blocks_of(&events).is_empty());
}

#[test]
fn block_quotes_indent_and_mark_lines() {
    let events = vec![
        MdEvent::Start(MdTag::BlockQuote),
        MdEvent::Start(MdTag::Paragraph),
        text("quoted"),
        MdEvent::End(MdTagEnd::Paragraph),
        MdEvent::End(MdTagEnd::BlockQuote),
        MdEvent::Rule,
    ];
    let doc = build_document(&events, &vec![]);
    assert_eq!(doc.lines.len(), 2);
    assert_eq!(doc.lines[0].quote_depth, 1);
    assert_eq!(doc.lines[0].indent, 12);
    assert!(doc.lines[1].is_rule);
    assert_eq!((doc.lines[1].spacing_before, doc.lines[1].spacing_after), (8, 8));
}

#[test]
fn table_rows_become_cell_lines() {
    let events = vec![
        MdEvent::Start(MdTag::Table),
        MdEvent::Start(MdTag::TableHead),
        MdEvent::Start(MdTag::TableCell),
        text("H"),
        MdEvent::End(MdTagEnd::TableCell),
        MdEvent::End(MdTagEnd::TableHead),
        MdEvent::Start(MdTag::TableRow),
        MdEvent::Start(MdTag::TableCell),
        text("a"),
        MdEvent::End(MdTagEnd::TableCell),
        MdEvent::Start(MdTag::TableCell),
        MdEvent::Code("b".to_string()),
        MdEvent::End(MdTagEnd::TableCell),
        MdEvent::End(MdTagEnd::TableRow),
        MdEvent::End(MdTagEnd::Table),
    ];
    let doc = build_document(&events, &vec![]);
    assert_eq!(doc.lines.len(), 2);
    let row = doc.lines[0].table_cells.as_ref().expect("a table row");
    assert_eq!(row.len(), 2);
    assert_eq!(row[0][0].text, "a");
    assert!(row[1][0].style.is_code);
    assert!(!doc.lines[0].is_table_header);
    assert_eq!(doc.lines[0].spacing_before, 1);
    assert_eq!(doc.lines[1].spacing_after, 4);
}

#[test]
fn links_carry_their_url() {
    let events = vec![
        MdEvent::Start(MdTag::Paragraph),
        MdEvent::Start(MdTag::Link("card-ref:Plan".to_string())),
        text("Plan"),
        MdEvent::End(MdTagEnd::Link),
        MdEvent::SoftBreak,
        text("after"),
        MdEvent::End(MdTagEnd::Paragraph),
    ];
    let doc = build_document(&events, &vec![]);
    assert_eq!(doc_texts(&doc), vec![vec!["Plan", " after"]]);
    let link = &doc.lines[0].segments[0];
    assert_eq!(link.link_url.as_deref(), Some("card-ref:Plan"));
    assert!(link.style.is_link && link.style.underline);
    assert!(!doc.lines[0].segments[1].style.is_link);
}

#[test]
fn text_style_builders() {
    let code = TextStyle::code();
    assert!(code.is_code && !code.bold);
    assert_eq!(code.size, TextSize::Default);
    let h = TextStyle::heading_with_base(2);
    assert_eq!(h.size, TextSize::Heading(2));
    assert!(h.bold);
    let d = TextStyle::heading(1);
    assert_eq!(d.size, TextSize::DefaultHeading(1));
    assert!(d.bold && !d.italic);
    let l = TextStyle::with_base_size().with_link();
    assert!(l.is_link && l.underline);
    assert!(TextStyle::bold().bold && TextStyle::italic().italic && TextStyle::strikethrough().strikethrough);
}

#[test]
fn text_line_emptiness() {
    let mut line = TextLine::new();
    assert!(line.is_empty());
    line.add_segment("  \t".to_string(), TextStyle::with_base_size());
    assert!(line.is_empty());
    line.add_segment("x".to_string(), TextStyle::with_base_size());
    assert!(!line.is_empty());
    assert!(!TextLine::new().as_rule().is_empty());
    let mut doc = TextDocument::new();
    assert!(doc.is_empty());
    doc.add_line(line);
    assert!(!doc.is_empty());
}

#[test]
fn checkboxes_numbered_in_order_law() {
    let item = |checked: bool, t: &str| {
        vec![
            MdEvent::Start(MdTag::Item),
            MdEvent::TaskListMarker(checked),
            text(t),
            MdEvent::End(MdTagEnd::Item),
        ]
    };
    let mut events = vec![MdEvent::Start(MdTag::List(None))];
    events.extend(item(false, "a"));
    events.extend(item(true, "b"));
    events.push(MdEvent::End(MdTagEnd::List));
    events.push(MdEvent::Start(MdTag::Paragraph));
    events.push(text("between"));
    events.push(MdEvent::End(MdTagEnd::Paragraph));
    events.push(MdEvent::Start(MdTag::List(None)));
    events.extend(item(false, "c"));
    events.push(MdEvent::End(MdTagEnd::List));
    let doc = build_document(&events, &vec![]);
    let numbers: Vec<usize> = doc.lines.iter().filter_map(|l| l.checkbox.map(|c| c.line_index)).collect();
    assert_eq!(numbers, vec![0, 1, 2]);
}

#[test]
fn defaults_are_plain_and_empty() {
    let s = TextStyle::default();
    assert_eq!(s.size, TextSize::Default);
    assert!(!s.bold && !s.italic && !s.is_code && s.color.is_none());
    let l = TextLine::default();
    assert!(l.segments.is_empty() && l.checkbox.is_none() && !l.is_rule);
    assert_eq!((l.indent, l.spacing_before, l.spacing_after), (0, 0, 0));
    assert!(TextDocument::default().is_empty());
}
