//! Turning Markdown into a `TextDocument`.
//!
//! The Markdown parser yields a stream of events (`MdEvent`); this module
//! builds the styled document from that stream. Code blocks are coloured by a
//! syntax highlighter: `code_blocks_of` lists the blocks in the order the builder
//! reaches them, and `build_document` takes the highlighter's answer for each.
use vstd::prelude::*;
use crate::text::{
    blank_chars, chars_eq_str, chars_of, decimal_chars, first_line, lemma_line_rest_shorter, line_rest,
    lines_of, push_decimal, split_lines, string_of, trim_chars, trim_str,
};
use crate::text_document::{
    CheckboxItem, LineV, Rgb, SegmentV, TextDocument, TextLine, TextSegment, TextSize, TextStyle,
    cells_view, empty_line, line_is_empty, plain_style, segs_view,
};

verus! {

/// The opening of a Markdown element.
#[derive(Debug, Clone)]
pub enum MdTag {
    Paragraph,
    /// A heading of the given level (1 to 6).
    Heading(u32),
    Strong,
    Emphasis,
    Strikethrough,
    /// A link to the given destination.
    Link(String),
    /// A list, numbered from the given start when ordered.
    List(Option<u64>),
    Item,
    /// A fenced code block with the given info string.
    FencedCodeBlock(String),
    IndentedCodeBlock,
    BlockQuote,
    Table,
    TableHead,
    TableRow,
    TableCell,
    /// Any other element.
    Other,
}

/// The closing of a Markdown element.
#[derive(Debug, Clone, Copy, PartialEq, Eq, Structural)]
pub enum MdTagEnd {
    Paragraph,
    Heading,
    Strong,
    Emphasis,
    Strikethrough,
    Link,
    List,
    Item,
    CodeBlock,
    BlockQuote,
    Table,
    TableHead,
    TableRow,
    TableCell,
    Other,
}

/// An event of the Markdown parser.
#[derive(Debug, Clone)]
pub enum MdEvent {
    Start(MdTag),
    End(MdTagEnd),
    Text(String),
    Code(String),
    InlineMath(String),
    DisplayMath(String),
    TaskListMarker(bool),
    SoftBreak,
    HardBreak,
    Rule,
    /// Any other event (HTML, footnote references).
    Other,
}

/// A run of highlighted code in one colour.
#[derive(Debug, Clone)]
pub struct HighlightSpan {
    pub color: Rgb,
    pub text: String,
}

/// A code block to highlight: its language, when one is named, and its code.
#[derive(Debug, Clone)]
pub struct CodeBlockRequest {
    pub language: Option<String>,
    pub code: String,
}

/// The highlighter's answer for one code block: `None` when it knows no syntax
/// for the language, else the spans of each line of the code.
pub type Highlight = Option<Vec<Vec<HighlightSpan>>>;

/// The value of an optional string.
pub open spec fn opt_view(o: Option<String>) -> Option<Seq<char>> {
    match o {
        Some(s) => Some(s@),
        None => None,
    }
}

/// The value of a line of highlighted spans.
pub open spec fn spans_view(v: Seq<HighlightSpan>) -> Seq<(Rgb, Seq<char>)> {
    v.map_values(|s: HighlightSpan| (s.color, s.text@))
}

/// The value of a highlighter answer.
pub open spec fn highlight_view(h: Highlight) -> Option<Seq<Seq<(Rgb, Seq<char>)>>> {
    match h {
        Some(lines) => Some(lines@.map_values(|l: Vec<HighlightSpan>| spans_view(l@))),
        None => None,
    }
}

/// The values of the highlighter answers.
pub open spec fn highlights_view(v: Seq<Highlight>) -> Seq<Option<Seq<Seq<(Rgb, Seq<char>)>>>> {
    v.map_values(|h: Highlight| highlight_view(h))
}

/// The value of a code block request.
pub open spec fn request_view(r: CodeBlockRequest) -> (Option<Seq<char>>, Seq<char>) {
    (opt_view(r.language), r.code@)
}

/// The state of the document builder, as values.
#[verifier::ext_equal]
pub struct BuildV {
    pub doc: Seq<LineV>,
    pub line: LineV,
    pub buf: Seq<char>,
    pub style: TextStyle,
    pub lists: Seq<Option<u64>>,
    pub counters: Seq<u64>,
    pub in_code: bool,
    pub lang: Option<Seq<char>>,
    pub code: Seq<char>,
    pub checkboxes: usize,
    pub link: Option<Seq<char>>,
    pub quote: u8,
    pub in_table: bool,
    pub in_head: bool,
    pub row: Seq<Seq<SegmentV>>,
    pub cell: Seq<SegmentV>,
    pub cell_text: Seq<char>,
    pub in_math: bool,
    pub math: Seq<char>,
    pub requests: Seq<(Option<Seq<char>>, Seq<char>)>,
}

/// The builder before any event.
pub open spec fn initial_build() -> BuildV {
    BuildV {
        doc: seq![],
        line: empty_line(),
        buf: seq![],
        style: plain_style(TextSize::Base),
        lists: seq![],
        counters: seq![],
        in_code: false,
        lang: None,
        code: seq![],
        checkboxes: 0,
        link: None,
        quote: 0,
        in_table: false,
        in_head: false,
        row: seq![],
        cell: seq![],
        cell_text: seq![],
        in_math: false,
        math: seq![],
        requests: seq![],
    }
}

/// A segment without a link.
pub open spec fn seg(text: Seq<char>, style: TextStyle) -> SegmentV {
    SegmentV { text, style, link_url: None }
}

/// A new line with the given spacing before and after it.
pub open spec fn spaced_line(before: u32, after: u32) -> LineV {
    LineV { spacing_before: before, spacing_after: after, ..empty_line() }
}

/// The pending text, when there is any, added to the current line in the current style.
pub open spec fn flush_text(s: BuildV) -> BuildV {
    if s.buf.len() > 0 {
        BuildV {
            line: LineV { segments: s.line.segments.push(seg(s.buf, s.style)), ..s.line },
            buf: seq![],
            ..s
        }
    } else {
        s
    }
}

/// A line written inside `q` block quotes: marked with the depth and indented by
/// 12 pixels a level, unless it carries a depth already.
pub open spec fn quoted(l: LineV, q: u8) -> LineV {
    if q > 0 && l.quote_depth == 0 {
        LineV {
            quote_depth: q,
            indent: if l.indent < q * 12 {
                (q * 12) as u64
            } else {
                l.indent
            },
            ..l
        }
    } else {
        l
    }
}

/// The pending text flushed, then the current line, when not empty, added to the
/// document and replaced by a new line.
pub open spec fn flush_line(s: BuildV) -> BuildV {
    let t = flush_text(s);
    if !line_is_empty(t.line) {
        BuildV { doc: t.doc.push(quoted(t.line, t.quote)), line: empty_line(), ..t }
    } else {
        t
    }
}

/// A line of a display-math block.
pub open spec fn math_line(text: Seq<char>, q: u8) -> LineV {
    LineV {
        segments: seq![seg(text, TextStyle { is_math: true, ..plain_style(TextSize::Base) })],
        indent: 8,
        spacing_before: 1,
        is_math_block: true,
        quote_depth: q,
        ..empty_line()
    }
}

/// The lines of a display-math block.
pub open spec fn math_lines(m: Seq<char>, q: u8) -> Seq<LineV>
    decreases m.len(),
{
    if m.len() == 0 {
        seq![]
    } else {
        proof {
            lemma_line_rest_shorter(m);
        }
        seq![math_line(first_line(m), q)] + math_lines(line_rest(m), q)
    }
}

/// A line of a code block.
pub open spec fn code_line(segments: Seq<SegmentV>) -> LineV {
    LineV { segments, indent: 10, spacing_before: 2, ..empty_line() }
}

/// The lines of a code block the highlighter knows no syntax for, in the code style.
pub open spec fn plain_code_lines(code: Seq<char>) -> Seq<LineV>
    decreases code.len(),
{
    if code.len() == 0 {
        seq![]
    } else {
        proof {
            lemma_line_rest_shorter(code);
        }
        seq![
            code_line(
                seq![seg(first_line(code), TextStyle { is_code: true, ..plain_style(TextSize::Default) })],
            ),
        ] + plain_code_lines(line_rest(code))
    }
}

/// `t` without its trailing `\n`s.
pub open spec fn trim_end_newlines(t: Seq<char>) -> Seq<char>
    decreases t.len(),
{
    if t.len() > 0 && t.last() == '\n' {
        trim_end_newlines(t.drop_last())
    } else {
        t
    }
}

/// `t` without its trailing `\r`s.
pub open spec fn trim_end_returns(t: Seq<char>) -> Seq<char>
    decreases t.len(),
{
    if t.len() > 0 && t.last() == '\r' {
        trim_end_returns(t.drop_last())
    } else {
        t
    }
}

/// The segments of a highlighted line: each span's text without its line ending,
/// in its colour, spans left empty dropped.
pub open spec fn highlighted_segments(spans: Seq<(Rgb, Seq<char>)>) -> Seq<SegmentV>
    decreases spans.len(),
{
    if spans.len() == 0 {
        seq![]
    } else {
        let t = trim_end_returns(trim_end_newlines(spans[0].1));
        let rest = highlighted_segments(spans.drop_first());
        if t.len() > 0 {
            seq![
                seg(
                    t,
                    TextStyle {
                        is_code: true,
                        color: Some(spans[0].0),
                        ..plain_style(TextSize::Default)
                    },
                ),
            ] + rest
        } else {
            rest
        }
    }
}

/// The lines of a code block given the highlighter's answer, then a spacing line.
pub open spec fn code_block_lines(
    code: Seq<char>,
    h: Option<Seq<Seq<(Rgb, Seq<char>)>>>,
) -> Seq<LineV> {
    let body = match h {
        Some(hl) => hl.map_values(|spans: Seq<(Rgb, Seq<char>)>| code_line(highlighted_segments(spans))),
        None => plain_code_lines(code),
    };
    body + seq![spaced_line(0, 4)]
}

/// The bullet of a list item at nesting depth `depth`.
pub open spec fn bullet(depth: nat) -> char {
    if depth % 3 == 1 {
        '\u{2022}'
    } else if depth % 3 == 2 {
        '\u{25e6}'
    } else {
        '\u{25b8}'
    }
}

/// The number of the current item of the innermost ordered list. Its counter
/// starts at the list's start number and is raised as each item opens, so the
/// item carries the counter less one: the first item carries the start.
pub open spec fn item_number(counters: Seq<u64>) -> nat {
    if counters.len() > 0 {
        if counters.last() > 0 {
            (counters.last() - 1) as nat
        } else {
            0
        }
    } else {
        1
    }
}

/// What the first text of a list item is preceded by: its number and `. ` in an
/// ordered list, its bullet and a space in another; nothing outside a list, after
/// a checkbox, or when the line holds text already.
pub open spec fn item_marker(s: BuildV) -> Seq<char> {
    if s.lists.len() > 0 && s.line.checkbox is None && s.line.segments.len() == 0 && s.buf.len()
        == 0 {
        if s.lists.last() is Some {
            decimal_chars(item_number(s.counters)) + seq!['.', ' ']
        } else {
            seq![bullet(s.lists.len()), ' ']
        }
    } else {
        seq![]
    }
}

/// The indent of a list item at nesting depth `depth`: 16 pixels a level.
pub open spec fn item_indent(depth: nat) -> u64 {
    if depth * 16 <= u64::MAX {
        (depth * 16) as u64
    } else {
        u64::MAX
    }
}

/// The builder after the opening of an element.
pub open spec fn start_tag(s: BuildV, tag: MdTag) -> BuildV {
    match tag {
        MdTag::Paragraph => if s.doc.len() > 0 {
            BuildV { line: LineV { spacing_before: 4, ..s.line }, ..s }
        } else {
            s
        },
        MdTag::Heading(level) => BuildV {
            style: TextStyle { size: TextSize::Heading(level), bold: true, ..plain_style(TextSize::Base) },
            line: spaced_line(8, 4),
            ..flush_line(s)
        },
        MdTag::Strong => {
            let t = flush_text(s);
            BuildV { style: TextStyle { bold: true, ..t.style }, ..t }
        },
        MdTag::Emphasis => {
            let t = flush_text(s);
            BuildV { style: TextStyle { italic: true, ..t.style }, ..t }
        },
        MdTag::Strikethrough => {
            let t = flush_text(s);
            BuildV { style: TextStyle { strikethrough: true, ..t.style }, ..t }
        },
        MdTag::Link(url) => {
            let t = flush_text(s);
            BuildV {
                link: Some(url@),
                style: TextStyle { is_link: true, underline: true, ..t.style },
                ..t
            }
        },
        MdTag::List(start) => {
            let t = flush_line(s);
            let u = BuildV {
                lists: t.lists.push(start),
                counters: t.counters.push(
                    match start {
                        Some(n) => n,
                        None => 0,
                    },
                ),
                ..t
            };
            if u.lists.len() == 1 {
                BuildV { line: LineV { spacing_before: 4, ..u.line }, ..u }
            } else {
                u
            }
        },
        MdTag::Item => {
            let t = flush_line(s);
            BuildV {
                line: LineV { indent: item_indent(t.lists.len()), ..empty_line() },
                counters: if t.counters.len() > 0 {
                    t.counters.update(t.counters.len() - 1, (t.counters.last() + 1) as u64)
                } else {
                    t.counters
                },
                ..t
            }
        },
        MdTag::FencedCodeBlock(info) => {
            let t = flush_line(s);
            if trim_chars(info@) == seq!['m', 'a', 't', 'h'] {
                BuildV { in_code: true, in_math: true, math: seq![], lang: None, code: seq![], ..t }
            } else {
                BuildV {
                    in_code: true,
                    lang: if info@.len() == 0 {
                        None
                    } else {
                        Some(info@)
                    },
                    code: seq![],
                    ..t
                }
            }
        },
        MdTag::IndentedCodeBlock => {
            let t = flush_line(s);
            BuildV { in_code: true, lang: None, code: seq![], ..t }
        },
        MdTag::BlockQuote => {
            let t = flush_line(s);
            BuildV {
                quote: if t.quote < 255 {
                    (t.quote + 1) as u8
                } else {
                    255u8
                },
                line: spaced_line(4, 0),
                ..t
            }
        },
        MdTag::Table => {
            let t = flush_line(s);
            BuildV { in_table: true, row: seq![], cell: seq![], cell_text: seq![], ..t }
        },
        MdTag::TableHead => BuildV { in_head: true, row: seq![], ..s },
        MdTag::TableRow => BuildV { row: seq![], cell: seq![], cell_text: seq![], ..s },
        MdTag::TableCell => BuildV {
            cell: seq![],
            cell_text: seq![],
            style: if s.in_head {
                TextStyle { bold: true, ..s.style }
            } else {
                s.style
            },
            ..s
        },
        MdTag::Other => s,
    }
}

/// The pending cell text, when there is any, added to the current cell.
pub open spec fn flush_cell_text(s: BuildV) -> BuildV {
    if s.cell_text.len() > 0 {
        BuildV { cell: s.cell.push(seg(s.cell_text, s.style)), cell_text: seq![], ..s }
    } else {
        s
    }
}

/// The highlighter's answer for the `k`-th code block, `None` past the end.
pub open spec fn highlight_at(
    hl: Seq<Option<Seq<Seq<(Rgb, Seq<char>)>>>>,
    k: int,
) -> Option<Seq<Seq<(Rgb, Seq<char>)>>> {
    if 0 <= k < hl.len() {
        hl[k]
    } else {
        None
    }
}

/// The builder after the end of a code block.
pub open spec fn end_code_block(s: BuildV, hl: Seq<Option<Seq<Seq<(Rgb, Seq<char>)>>>>) -> BuildV {
    let t = if s.in_math {
        BuildV { doc: s.doc + math_lines(s.math, s.quote), in_math: false, math: seq![], ..s }
    } else if s.code.len() > 0 {
        BuildV {
            doc: s.doc + code_block_lines(s.code, highlight_at(hl, s.requests.len() as int)),
            requests: s.requests.push((s.lang, s.code)),
            ..s
        }
    } else {
        s
    };
    BuildV {
        in_code: false,
        lang: None,
        code: seq![],
        style: plain_style(TextSize::Base),
        line: spaced_line(0, 4),
        ..t
    }
}

/// The builder after the end of a table row: the row, when it has cells, added as
/// a line, with a rule after the header row.
pub open spec fn end_table_row(s: BuildV) -> BuildV {
    let t = flush_cell_text(s);
    let u = if t.cell.len() > 0 {
        BuildV { row: t.row.push(t.cell), cell: seq![], ..t }
    } else {
        t
    };
    let v = if u.row.len() > 0 {
        let row_line = LineV {
            spacing_before: if u.in_head {
                4u32
            } else {
                1u32
            },
            table_cells: Some(u.row),
            is_table_header: u.in_head,
            ..empty_line()
        };
        let d = u.doc.push(row_line);
        BuildV {
            doc: if u.in_head {
                d.push(LineV { is_rule: true, ..spaced_line(1, 1) })
            } else {
                d
            },
            ..u
        }
    } else {
        u
    };
    BuildV { row: seq![], ..v }
}

/// The builder after the closing of an element.
pub open spec fn end_tag(
    s: BuildV,
    tag: MdTagEnd,
    hl: Seq<Option<Seq<Seq<(Rgb, Seq<char>)>>>>,
) -> BuildV {
    match tag {
        MdTagEnd::Paragraph => BuildV { line: spaced_line(0, 4), ..flush_line(s) },
        MdTagEnd::Heading => BuildV {
            style: plain_style(TextSize::Base),
            line: empty_line(),
            ..flush_line(s)
        },
        MdTagEnd::Strong => {
            let t = flush_text(s);
            BuildV { style: TextStyle { bold: false, ..t.style }, ..t }
        },
        MdTagEnd::Emphasis => {
            let t = flush_text(s);
            BuildV { style: TextStyle { italic: false, ..t.style }, ..t }
        },
        MdTagEnd::Strikethrough => {
            let t = flush_text(s);
            BuildV { style: TextStyle { strikethrough: false, ..t.style }, ..t }
        },
        MdTagEnd::Link => {
            let t = if s.buf.len() > 0 {
                BuildV {
                    line: LineV {
                        segments: s.line.segments.push(
                            SegmentV { text: s.buf, style: s.style, link_url: s.link },
                        ),
                        ..s.line
                    },
                    buf: seq![],
                    ..s
                }
            } else {
                s
            };
            BuildV { link: None, style: TextStyle { is_link: false, underline: false, ..t.style }, ..t }
        },
        MdTagEnd::Item => BuildV { line: empty_line(), ..flush_line(s) },
        MdTagEnd::List => BuildV {
            lists: if s.lists.len() > 0 {
                s.lists.drop_last()
            } else {
                s.lists
            },
            counters: if s.counters.len() > 0 {
                s.counters.drop_last()
            } else {
                s.counters
            },
            line: spaced_line(0, 4),
            ..s
        },
        MdTagEnd::CodeBlock => end_code_block(s, hl),
        MdTagEnd::BlockQuote => {
            let t = flush_line(s);
            BuildV {
                quote: if t.quote > 0 {
                    (t.quote - 1) as u8
                } else {
                    0u8
                },
                line: spaced_line(0, 4),
                ..t
            }
        },
        MdTagEnd::Table => BuildV {
            in_table: false,
            row: seq![],
            cell: seq![],
            cell_text: seq![],
            doc: s.doc.push(spaced_line(0, 4)),
            ..s
        },
        MdTagEnd::TableHead => BuildV {
            in_head: false,
            style: TextStyle { bold: false, ..s.style },
            ..s
        },
        MdTagEnd::TableRow => end_table_row(s),
        MdTagEnd::TableCell => {
            let t = flush_cell_text(s);
            BuildV {
                row: t.row.push(t.cell),
                cell: seq![],
                style: if t.in_head {
                    TextStyle { bold: false, ..t.style }
                } else {
                    t.style
                },
                ..t
            }
        },
        MdTagEnd::Other => s,
    }
}

/// The builder after one event.
pub open spec fn build_step(
    s: BuildV,
    e: MdEvent,
    hl: Seq<Option<Seq<Seq<(Rgb, Seq<char>)>>>>,
) -> BuildV {
    match e {
        MdEvent::Start(tag) => start_tag(s, tag),
        MdEvent::End(tag) => end_tag(s, tag, hl),
        MdEvent::Text(t) => if s.in_math {
            BuildV { math: s.math + t@, ..s }
        } else if s.in_code {
            BuildV { code: s.code + t@, ..s }
        } else if s.in_table {
            BuildV { cell_text: s.cell_text + t@, ..s }
        } else {
            BuildV { buf: s.buf + item_marker(s) + t@, ..s }
        },
        MdEvent::Code(c) => if s.in_table {
            let t = flush_cell_text(s);
            BuildV {
                cell: t.cell.push(seg(c@, TextStyle { is_code: true, ..plain_style(TextSize::Default) })),
                ..t
            }
        } else {
            let t = flush_text(s);
            BuildV {
                line: LineV {
                    segments: t.line.segments.push(
                        seg(c@, TextStyle { is_code: true, ..plain_style(TextSize::Default) }),
                    ),
                    ..t.line
                },
                ..t
            }
        },
        MdEvent::InlineMath(m) => {
            let t = flush_text(s);
            BuildV {
                line: LineV {
                    segments: t.line.segments.push(
                        seg(m@, TextStyle { is_math: true, ..plain_style(TextSize::Base) }),
                    ),
                    ..t.line
                },
                ..t
            }
        },
        MdEvent::DisplayMath(m) => {
            let t = flush_line(s);
            BuildV { doc: t.doc + math_lines(m@, t.quote), line: spaced_line(0, 4), ..t }
        },
        MdEvent::TaskListMarker(checked) => BuildV {
            line: LineV {
                checkbox: Some(CheckboxItem { checked, line_index: s.checkboxes }),
                ..s.line
            },
            checkboxes: (s.checkboxes + 1) as usize,
            ..s
        },
        MdEvent::SoftBreak => if s.in_table {
            s
        } else {
            BuildV { buf: s.buf.push(' '), ..s }
        },
        MdEvent::HardBreak => BuildV { line: empty_line(), ..flush_line(s) },
        MdEvent::Rule => {
            let t = flush_line(s);
            BuildV {
                doc: t.doc.push(LineV { is_rule: true, ..spaced_line(8, 8) }),
                line: empty_line(),
                ..t
            }
        },
        MdEvent::Other => s,
    }
}

/// The builder after the first `n` events.
pub open spec fn build_run(
    events: Seq<MdEvent>,
    hl: Seq<Option<Seq<Seq<(Rgb, Seq<char>)>>>>,
    n: nat,
) -> BuildV
    decreases n,
{
    if n == 0 {
        initial_build()
    } else {
        build_step(build_run(events, hl, (n - 1) as nat), events[n - 1], hl)
    }
}

/// The document of an event stream, given the highlighter's answers for its code
/// blocks.
pub open spec fn document_of(
    events: Seq<MdEvent>,
    hl: Seq<Option<Seq<Seq<(Rgb, Seq<char>)>>>>,
) -> Seq<LineV> {
    flush_line(build_run(events, hl, events.len())).doc
}

/// The code blocks of an event stream that are highlighted, in order.
pub open spec fn code_block_requests(events: Seq<MdEvent>) -> Seq<(Option<Seq<char>>, Seq<char>)> {
    build_run(events, seq![], events.len()).requests
}

/// The list starts leave room for counting every item of the stream.
pub open spec fn list_starts_bounded(events: Seq<MdEvent>) -> bool {
    forall|i: int|
        0 <= i < events.len() ==> (#[trigger] events[i] matches MdEvent::Start(
            MdTag::List(Some(n)),
        ) ==> n <= u64::MAX - events.len())
}

/// The lines of a display-math block, line by line.
proof fn lemma_math_lines(m: Seq<char>, q: u8)
    ensures
        math_lines(m, q) == lines_of(m).map_values(|l: Seq<char>| math_line(l, q)),
    decreases m.len(),
{
    if m.len() > 0 {
        lemma_line_rest_shorter(m);
        lemma_math_lines(line_rest(m), q);
        assert(math_lines(m, q) =~= lines_of(m).map_values(|l: Seq<char>| math_line(l, q)));
    } else {
        assert(math_lines(m, q) =~= lines_of(m).map_values(|l: Seq<char>| math_line(l, q)));
    }
}

/// The code style.
pub open spec fn code_style() -> TextStyle {
    TextStyle { is_code: true, ..plain_style(TextSize::Default) }
}

/// The lines of an unhighlighted code block, line by line.
proof fn lemma_plain_code_lines(code: Seq<char>)
    ensures
        plain_code_lines(code) == lines_of(code).map_values(
            |l: Seq<char>| code_line(seq![seg(l, code_style())]),
        ),
    decreases code.len(),
{
    if code.len() > 0 {
        lemma_line_rest_shorter(code);
        lemma_plain_code_lines(line_rest(code));
    }
    assert(plain_code_lines(code) =~= lines_of(code).map_values(
        |l: Seq<char>| code_line(seq![seg(l, code_style())]),
    ));
}

/// The end of `v` without its trailing `\n`s, then without its trailing `\r`s.
fn trimmed_line_end(v: &Vec<char>) -> (r: usize)
    ensures
        r <= v@.len(),
        v@.take(r as int) == trim_end_returns(trim_end_newlines(v@)),
{
    let mut a = v.len();
    assert(v@.take(a as int) =~= v@);
    while a > 0 && v[a - 1] == '\n'
        invariant
            a <= v@.len(),
            trim_end_newlines(v@) == trim_end_newlines(v@.take(a as int)),
        decreases a,
    {
        assert(v@.take(a as int).drop_last() =~= v@.take(a - 1));
        a -= 1;
    }
    assert(trim_end_newlines(v@.take(a as int)) == v@.take(a as int));
    let mut b = a;
    while b > 0 && v[b - 1] == '\r'
        invariant
            b <= a <= v@.len(),
            trim_end_returns(trim_end_newlines(v@)) == trim_end_returns(v@.take(b as int)),
        decreases b,
    {
        assert(v@.take(b as int).drop_last() =~= v@.take(b - 1));
        b -= 1;
    }
    b
}

/// The document builder: the state kept while walking the events.
struct DocumentBuilder {
    doc: TextDocument,
    line: TextLine,
    buf: String,
    style: TextStyle,
    lists: Vec<Option<u64>>,
    counters: Vec<u64>,
    in_code: bool,
    lang: Option<String>,
    code: String,
    checkboxes: usize,
    link: Option<String>,
    quote: u8,
    in_table: bool,
    in_head: bool,
    row: Vec<Vec<TextSegment>>,
    cell: Vec<TextSegment>,
    cell_text: String,
    in_math: bool,
    math: String,
    requests: Vec<CodeBlockRequest>,
}

impl View for DocumentBuilder {
    type V = BuildV;

    closed spec fn view(&self) -> BuildV {
        BuildV {
            doc: self.doc@,
            line: self.line@,
            buf: self.buf@,
            style: self.style,
            lists: self.lists@,
            counters: self.counters@,
            in_code: self.in_code,
            lang: opt_view(self.lang),
            code: self.code@,
            checkboxes: self.checkboxes,
            link: opt_view(self.link),
            quote: self.quote,
            in_table: self.in_table,
            in_head: self.in_head,
            row: cells_view(self.row@),
            cell: segs_view(self.cell@),
            cell_text: self.cell_text@,
            in_math: self.in_math,
            math: self.math@,
            requests: self.requests@.map_values(|r: CodeBlockRequest| request_view(r)),
        }
    }
}

/// A copy of an optional string.
fn clone_opt(o: &Option<String>) -> (r: Option<String>)
    ensures
        opt_view(r) == opt_view(*o),
{
    match o {
        Some(s) => Some(s.clone()),
        None => None,
    }
}

impl DocumentBuilder {
    fn new() -> (r: Self)
        ensures
            r@ == initial_build(),
    {
        let r = DocumentBuilder {
            doc: TextDocument::new(),
            line: TextLine::new(),
            buf: String::new(),
            style: TextStyle::with_base_size(),
            lists: Vec::new(),
            counters: Vec::new(),
            in_code: false,
            lang: None,
            code: String::new(),
            checkboxes: 0,
            link: None,
            quote: 0,
            in_table: false,
            in_head: false,
            row: Vec::new(),
            cell: Vec::new(),
            cell_text: String::new(),
            in_math: false,
            math: String::new(),
            requests: Vec::new(),
        };
        assert(r@ =~= initial_build());
        r
    }

    fn flush_text(&mut self)
        ensures
            final(self)@ == flush_text(old(self)@),
    {
        if !self.buf.as_str().is_empty() {
            let mut text = String::new();
            std::mem::swap(&mut text, &mut self.buf);
            self.line.add_segment(text, self.style);
            assert(self@ =~= flush_text(old(self)@));
        }
    }

    fn flush_line(&mut self)
        ensures
            final(self)@ == flush_line(old(self)@),
    {
        self.flush_text();
        let ghost t = self@;
        if !self.line.is_empty() {
            let mut line = TextLine::new();
            std::mem::swap(&mut line, &mut self.line);
            if self.quote > 0 && line.quote_depth == 0 {
                line.quote_depth = self.quote;
                let q = self.quote as u64 * 12;
                if line.indent < q {
                    line.indent = q;
                }
            }
            assert(line@ == quoted(t.line, t.quote));
            self.doc.add_line(line);
            assert(self@ =~= flush_line(old(self)@));
        }
    }

    /// Adds the lines of a display-math block to the document.
    fn add_math_lines(&mut self, m: &str)
        ensures
            final(self)@ == (BuildV { doc: old(self)@.doc + math_lines(m@, old(self)@.quote), ..old(self)@ }),
    {
        let lines = split_lines(m);
        let ghost q = self.quote;
        proof {
            lemma_math_lines(m@, q);
        }
        let mut i: usize = 0;
        while i < lines.len()
            invariant
                i <= lines@.len(),
                lines@.len() == lines_of(m@).len(),
                forall|j: int| 0 <= j < lines@.len() ==> (#[trigger] lines@[j])@ == lines_of(m@)[j],
                math_lines(m@, q) == lines_of(m@).map_values(|l: Seq<char>| math_line(l, q)),
                self@ == (BuildV { doc: old(self)@.doc + math_lines(m@, q).take(i as int), ..old(self)@ }),
                q == old(self)@.quote,
            decreases lines@.len() - i,
        {
            let mut ms = TextStyle::math();
            let mut tl = TextLine::new().with_indent(8).with_spacing_before(1).as_math_block().with_quote_depth(self.quote);
            tl.add_segment(lines[i].clone(), ms);
            assert(tl@ =~= math_line(lines_of(m@)[i as int], q));
            self.doc.add_line(tl);
            i += 1;
            assert(self@ =~= (BuildV { doc: old(self)@.doc + math_lines(m@, q).take(i as int), ..old(self)@ }));
        }
        assert(math_lines(m@, q).take(i as int) =~= math_lines(m@, q));
    }

    /// Adds the lines of a code block to the document, highlighted where the
    /// highlighter answered for it.
    fn add_code_block(&mut self, code: &str, h: &Highlight)
        ensures
            final(self)@ == (BuildV {
                doc: old(self)@.doc + code_block_lines(code@, highlight_view(*h)),
                ..old(self)@
            }),
    {
        let ghost body = match highlight_view(*h) {
            Some(hl) => hl.map_values(|spans: Seq<(Rgb, Seq<char>)>| code_line(highlighted_segments(spans))),
            None => plain_code_lines(code@),
        };
        match h {
            Some(hl) => {
                let mut i: usize = 0;
                while i < hl.len()
                    invariant
                        i <= hl@.len(),
                        highlight_view(*h) == Some(hl@.map_values(|l: Vec<HighlightSpan>| spans_view(l@))),
                        body == hl@.map_values(|l: Vec<HighlightSpan>| spans_view(l@)).map_values(
                            |spans: Seq<(Rgb, Seq<char>)>| code_line(highlighted_segments(spans)),
                        ),
                        self@ == (BuildV { doc: old(self)@.doc + body.take(i as int), ..old(self)@ }),
                    decreases hl@.len() - i,
                {
                    let tl = code_line_of(&hl[i]);
                    self.doc.add_line(tl);
                    i += 1;
                    assert(self@ =~= (BuildV { doc: old(self)@.doc + body.take(i as int), ..old(self)@ }));
                }
                assert(body.take(i as int) =~= body);
            },
            None => {
                let lines = split_lines(code);
                proof {
                    lemma_plain_code_lines(code@);
                }
                let mut i: usize = 0;
                while i < lines.len()
                    invariant
                        i <= lines@.len(),
                        lines@.len() == lines_of(code@).len(),
                        forall|j: int| 0 <= j < lines@.len() ==> (#[trigger] lines@[j])@ == lines_of(code@)[j],
                        body == plain_code_lines(code@),
                        plain_code_lines(code@) == lines_of(code@).map_values(
                            |l: Seq<char>| code_line(seq![seg(l, code_style())]),
                        ),
                        self@ == (BuildV { doc: old(self)@.doc + body.take(i as int), ..old(self)@ }),
                    decreases lines@.len() - i,
                {
                    let mut tl = TextLine::new().with_indent(10).with_spacing_before(2);
                    tl.add_segment(lines[i].clone(), TextStyle::code());
                    assert(tl@ =~= code_line(seq![seg(lines_of(code@)[i as int], code_style())]));
                    self.doc.add_line(tl);
                    i += 1;
                    assert(self@ =~= (BuildV { doc: old(self)@.doc + body.take(i as int), ..old(self)@ }));
                }
                assert(body.take(i as int) =~= body);
            },
        }
        self.doc.add_line(TextLine::new().with_spacing_after(4));
        assert(self@ =~= (BuildV {
            doc: old(self)@.doc + code_block_lines(code@, highlight_view(*h)),
            ..old(self)@
        }));
    }
}

/// The bullet of a list item at nesting depth `depth`.
fn bullet_char(depth: usize) -> (c: char)
    ensures
        c == bullet(depth as nat),
{
    if depth % 3 == 1 {
        '\u{2022}'
    } else if depth % 3 == 2 {
        '\u{25e6}'
    } else {
        '\u{25b8}'
    }
}

impl DocumentBuilder {
    /// Adds the pending cell text, when there is any, to the current cell.
    fn flush_cell_text(&mut self)
        ensures
            final(self)@ == flush_cell_text(old(self)@),
    {
        if !self.cell_text.as_str().is_empty() {
            let mut text = String::new();
            std::mem::swap(&mut text, &mut self.cell_text);
            let sg = TextSegment { text, style: self.style, link_url: None };
            self.cell.push(sg);
            assert(segs_view(self.cell@) =~= segs_view(old(self).cell@).push(sg@));
            assert(self@ =~= flush_cell_text(old(self)@));
        }
    }

    /// A new current line, with the given spacing before and after it.
    fn new_line(&mut self, before: u32, after: u32)
        ensures
            final(self)@ == (BuildV { line: spaced_line(before, after), ..old(self)@ }),
    {
        self.line = TextLine::new().with_spacing_before(before).with_spacing_after(after);
        assert(self@ =~= (BuildV { line: spaced_line(before, after), ..old(self)@ }));
    }

    fn start_heading(&mut self, level: u32)
        ensures
            final(self)@ == start_tag(old(self)@, MdTag::Heading(level)),
    {
        self.flush_line();
        self.style = TextStyle::heading_with_base(level);
        self.new_line(8, 4);
        assert(self@ =~= start_tag(old(self)@, MdTag::Heading(level)));
    }

    fn start_list(&mut self, start: Option<u64>)
        ensures
            final(self)@ == start_tag(old(self)@, MdTag::List(start)),
    {
        self.flush_line();
        self.lists.push(start);
        let first = match start {
            Some(n) => n,
            None => 0,
        };
        self.counters.push(first);
        if self.lists.len() == 1 {
            self.line.spacing_before = 4;
        }
        assert(self@ =~= start_tag(old(self)@, MdTag::List(start)));
    }

    fn start_item(&mut self)
        requires
            old(self)@.counters.len() > 0 ==> old(self)@.counters.last() < u64::MAX,
        ensures
            final(self)@ == start_tag(old(self)@, MdTag::Item),
    {
        self.flush_line();
        let depth = self.lists.len() as u64;
        let indent = if depth <= u64::MAX / 16 {
            depth * 16
        } else {
            u64::MAX
        };
        self.line = TextLine::new().with_indent(indent);
        let n = self.counters.len();
        if n > 0 {
            let c = self.counters[n - 1];
            self.counters.set(n - 1, c + 1);
        }
        assert(self@ =~= start_tag(old(self)@, MdTag::Item));
    }

    fn start_fenced_code(&mut self, info: &String)
        ensures
            final(self)@ == start_tag(old(self)@, MdTag::FencedCodeBlock(*info)),
    {
        self.flush_line();
        self.in_code = true;
        let trimmed = trim_str(info.as_str());
        let tv = chars_of(trimmed);
        proof {
            reveal_strlit("math");
            assert("math"@ =~= seq!['m', 'a', 't', 'h']);
        }
        if chars_eq_str(&tv, "math") {
            self.in_math = true;
            self.math = String::new();
            self.lang = None;
        } else if info.as_str().is_empty() {
            self.lang = None;
        } else {
            self.lang = Some(info.clone());
        }
        self.code = String::new();
        assert(self@ =~= start_tag(old(self)@, MdTag::FencedCodeBlock(*info)));
    }

    fn start_other(&mut self, tag: &MdTag)
        requires
            !(*tag is Heading || *tag is List || *tag is Item || *tag is FencedCodeBlock),
        ensures
            final(self)@ == start_tag(old(self)@, *tag),
    {
        match tag {
            MdTag::Paragraph => {
                if !self.doc.is_empty() {
                    self.line.spacing_before = 4;
                    assert(self@ =~= start_tag(old(self)@, *tag));
                }
            },
            MdTag::Strong => {
                self.flush_text();
                self.style = self.style.with_bold(true);
                assert(self@ =~= start_tag(old(self)@, *tag));
            },
            MdTag::Emphasis => {
                self.flush_text();
                self.style = self.style.with_italic(true);
                assert(self@ =~= start_tag(old(self)@, *tag));
            },
            MdTag::Strikethrough => {
                self.flush_text();
                self.style = self.style.with_strikethrough(true);
                assert(self@ =~= start_tag(old(self)@, *tag));
            },
            MdTag::Link(url) => {
                self.flush_text();
                self.link = Some(url.clone());
                self.style = self.style.with_link();
                assert(self@ =~= start_tag(old(self)@, *tag));
            },
            MdTag::IndentedCodeBlock => {
                self.flush_line();
                self.in_code = true;
                self.lang = None;
                self.code = String::new();
                assert(self@ =~= start_tag(old(self)@, *tag));
            },
            MdTag::BlockQuote => {
                self.flush_line();
                self.quote = if self.quote < 255 {
                    self.quote + 1
                } else {
                    255
                };
                self.new_line(4, 0);
                assert(self@ =~= start_tag(old(self)@, *tag));
            },
            MdTag::Table => {
                self.flush_line();
                self.in_table = true;
                self.row = Vec::new();
                self.cell = Vec::new();
                self.cell_text = String::new();
                assert(self@ =~= start_tag(old(self)@, *tag));
            },
            MdTag::TableHead => {
                self.in_head = true;
                self.row = Vec::new();
                assert(self@ =~= start_tag(old(self)@, *tag));
            },
            MdTag::TableRow => {
                self.row = Vec::new();
                self.cell = Vec::new();
                self.cell_text = String::new();
                assert(self@ =~= start_tag(old(self)@, *tag));
            },
            MdTag::TableCell => {
                self.cell = Vec::new();
                self.cell_text = String::new();
                if self.in_head {
                    self.style = self.style.with_bold(true);
                }
                assert(self@ =~= start_tag(old(self)@, *tag));
            },
            _ => {},
        }
    }

    fn start(&mut self, tag: &MdTag)
        requires
            *tag is Item && old(self)@.counters.len() > 0 ==> old(self)@.counters.last() < u64::MAX,
        ensures
            final(self)@ == start_tag(old(self)@, *tag),
    {
        match tag {
            MdTag::Heading(level) => self.start_heading(*level),
            MdTag::List(start) => self.start_list(*start),
            MdTag::Item => self.start_item(),
            MdTag::FencedCodeBlock(info) => self.start_fenced_code(info),
            _ => self.start_other(tag),
        }
    }

    fn end_code_block(&mut self, hl: &Vec<Highlight>)
        ensures
            final(self)@ == end_code_block(old(self)@, highlights_view(hl@)),
    {
        if self.in_math {
            let mut m = String::new();
            std::mem::swap(&mut m, &mut self.math);
            self.add_math_lines(m.as_str());
            self.in_math = false;
        } else if !self.code.as_str().is_empty() {
            let k = self.requests.len();
            let none: Highlight = None;
            let mut code = String::new();
            std::mem::swap(&mut code, &mut self.code);
            if k < hl.len() {
                self.add_code_block(code.as_str(), &hl[k]);
            } else {
                self.add_code_block(code.as_str(), &none);
            }
            let req = CodeBlockRequest { language: clone_opt(&self.lang), code };
            self.requests.push(req);
            assert(self.requests@.map_values(|r: CodeBlockRequest| request_view(r)) =~= old(
                self,
            ).requests@.map_values(|r: CodeBlockRequest| request_view(r)).push(request_view(req)));
        }
        self.in_code = false;
        self.lang = None;
        self.code = String::new();
        self.style = TextStyle::with_base_size();
        self.new_line(0, 4);
        assert(self@ =~= end_code_block(old(self)@, highlights_view(hl@)));
    }

    fn end_table_row(&mut self)
        ensures
            final(self)@ == end_table_row(old(self)@),
    {
        self.flush_cell_text();
        let ghost t = self@;
        if self.cell.len() > 0 {
            let mut c: Vec<TextSegment> = Vec::new();
            std::mem::swap(&mut c, &mut self.cell);
            self.row.push(c);
            assert(cells_view(self.row@) =~= t.row.push(t.cell));
            assert(segs_view(self.cell@) =~= Seq::<SegmentV>::empty());
        }
        let ghost u = self@;
        if self.row.len() > 0 {
            let before: u32 = if self.in_head {
                4
            } else {
                1
            };
            let mut r: Vec<Vec<TextSegment>> = Vec::new();
            std::mem::swap(&mut r, &mut self.row);
            let row_line = TextLine::new().with_spacing_before(before).as_table_row(r, self.in_head);
            self.doc.add_line(row_line);
            if self.in_head {
                self.doc.add_line(TextLine::new().with_spacing_before(1).with_spacing_after(1).as_rule());
            }
        }
        self.row = Vec::new();
        assert(cells_view(self.row@) =~= Seq::<Seq<SegmentV>>::empty());
        assert(self@ =~= end_table_row(old(self)@));
    }

    fn end_link(&mut self)
        ensures
            final(self)@ == end_tag(old(self)@, MdTagEnd::Link, seq![]),
    {
        let ghost s0 = self@;
        let ghost t = if s0.buf.len() > 0 {
            BuildV {
                line: LineV {
                    segments: s0.line.segments.push(
                        SegmentV { text: s0.buf, style: s0.style, link_url: s0.link },
                    ),
                    ..s0.line
                },
                buf: seq![],
                ..s0
            }
        } else {
            s0
        };
        if !self.buf.as_str().is_empty() {
            let mut text = String::new();
            std::mem::swap(&mut text, &mut self.buf);
            let link = clone_opt(&self.link);
            let sg = TextSegment { text, style: self.style, link_url: link };
            assert(sg@ == SegmentV { text: s0.buf, style: s0.style, link_url: s0.link });
            self.line.segments.push(sg);
            assert(self.line@.segments =~= s0.line.segments.push(sg@));
            assert(self.line@ =~= t.line);
            assert(self@ =~= t);
        }
        assert(self@ == t);
        self.link = None;
        self.style = TextStyle { is_link: false, underline: false, ..self.style };
        assert(self@ =~= BuildV {
            link: None,
            style: TextStyle { is_link: false, underline: false, ..t.style },
            ..t
        });
    }

    fn end_inline(&mut self, tag: MdTagEnd)
        requires
            tag == MdTagEnd::Strong || tag == MdTagEnd::Emphasis || tag == MdTagEnd::Strikethrough,
        ensures
            final(self)@ == end_tag(old(self)@, tag, seq![]),
    {
        match tag {
            MdTagEnd::Strong => {
                self.flush_text();
                self.style = self.style.with_bold(false);
                assert(self@ =~= end_tag(old(self)@, tag, seq![]));
            },
            MdTagEnd::Emphasis => {
                self.flush_text();
                self.style = self.style.with_italic(false);
                assert(self@ =~= end_tag(old(self)@, tag, seq![]));
            },
            MdTagEnd::Strikethrough => {
                self.flush_text();
                self.style = self.style.with_strikethrough(false);
                assert(self@ =~= end_tag(old(self)@, tag, seq![]));
            },
            _ => {},
        }
    }

    fn end_block(&mut self, tag: MdTagEnd)
        requires
            tag == MdTagEnd::Paragraph || tag == MdTagEnd::Heading || tag == MdTagEnd::Item || tag == MdTagEnd::List || tag == MdTagEnd::BlockQuote,
        ensures
            final(self)@ == end_tag(old(self)@, tag, seq![]),
    {
        match tag {
            MdTagEnd::Paragraph => {
                self.flush_line();
                self.new_line(0, 4);
                assert(self@ =~= end_tag(old(self)@, tag, seq![]));
            },
            MdTagEnd::Heading => {
                self.flush_line();
                self.style = TextStyle::with_base_size();
                self.line = TextLine::new();
                assert(self@ =~= end_tag(old(self)@, tag, seq![]));
            },
            MdTagEnd::Item => {
                self.flush_line();
                self.line = TextLine::new();
                assert(self@ =~= end_tag(old(self)@, tag, seq![]));
            },
            MdTagEnd::List => {
                self.lists.pop();
                self.counters.pop();
                self.new_line(0, 4);
                assert(self@ =~= end_tag(old(self)@, tag, seq![]));
            },
            MdTagEnd::BlockQuote => {
                self.flush_line();
                self.quote = if self.quote > 0 {
                    self.quote - 1
                } else {
                    0
                };
                self.new_line(0, 4);
                assert(self@ =~= end_tag(old(self)@, tag, seq![]));
            },
            _ => {},
        }
    }

    fn end_table(&mut self, tag: MdTagEnd)
        requires
            tag == MdTagEnd::Table || tag == MdTagEnd::TableHead || tag == MdTagEnd::TableCell,
        ensures
            final(self)@ == end_tag(old(self)@, tag, seq![]),
    {
        match tag {
            MdTagEnd::Table => {
                self.in_table = false;
                self.row = Vec::new();
                self.cell = Vec::new();
                self.cell_text = String::new();
                self.doc.add_line(TextLine::new().with_spacing_after(4));
                assert(self@ =~= end_tag(old(self)@, tag, seq![]));
            },
            MdTagEnd::TableHead => {
                self.in_head = false;
                self.style = self.style.with_bold(false);
                assert(self@ =~= end_tag(old(self)@, tag, seq![]));
            },
            MdTagEnd::TableCell => {
                self.flush_cell_text();
                let ghost t = self@;
                let mut c: Vec<TextSegment> = Vec::new();
                std::mem::swap(&mut c, &mut self.cell);
                self.row.push(c);
                assert(cells_view(self.row@) =~= t.row.push(t.cell));
                if self.in_head {
                    self.style = self.style.with_bold(false);
                }
                assert(self@ =~= end_tag(old(self)@, tag, seq![]));
            },
            _ => {},
        }
    }

    fn end(&mut self, tag: MdTagEnd, hl: &Vec<Highlight>)
        ensures
            final(self)@ == end_tag(old(self)@, tag, highlights_view(hl@)),
    {
        match tag {
            MdTagEnd::Strong | MdTagEnd::Emphasis | MdTagEnd::Strikethrough => self.end_inline(tag),
            MdTagEnd::Link => self.end_link(),
            MdTagEnd::Paragraph | MdTagEnd::Heading | MdTagEnd::Item | MdTagEnd::List
            | MdTagEnd::BlockQuote => self.end_block(tag),
            MdTagEnd::Table | MdTagEnd::TableHead | MdTagEnd::TableCell => self.end_table(tag),
            MdTagEnd::CodeBlock => self.end_code_block(hl),
            MdTagEnd::TableRow => self.end_table_row(),
            MdTagEnd::Other => {},
        }
    }

    #[verifier::spinoff_prover]
    fn step(&mut self, e: &MdEvent, hl: &Vec<Highlight>)
        requires
            *e is Start && old(self)@.counters.len() > 0 ==> old(self)@.counters.last() < u64::MAX,
            *e is TaskListMarker ==> old(self)@.checkboxes < usize::MAX,
        ensures
            final(self)@ == build_step(old(self)@, *e, highlights_view(hl@)),
    {
        match e {
            MdEvent::Start(tag) => self.start(tag),
            MdEvent::End(tag) => self.end(*tag, hl),
            MdEvent::Text(t) => {
                if self.in_math {
                    self.math.append(t.as_str());
                } else if self.in_code {
                    self.code.append(t.as_str());
                } else if self.in_table {
                    self.cell_text.append(t.as_str());
                } else {
                    let ghost m = item_marker(self@);
                    let depth = self.lists.len();
                    if depth > 0 && self.line.checkbox.is_none() && self.line.segments.len() == 0
                        && self.buf.as_str().is_empty() {
                        match self.lists[depth - 1] {
                            Some(_) => {
                                let n = self.counters.len();
                                let num = if n > 0 {
                                    if self.counters[n - 1] > 0 {
                                        self.counters[n - 1] - 1
                                    } else {
                                        0
                                    }
                                } else {
                                    1
                                };
                                push_decimal(&mut self.buf, num);
                                self.buf.push('.');
                                self.buf.push(' ');
                            },
                            None => {
                                self.buf.push(bullet_char(depth));
                                self.buf.push(' ');
                            },
                        }
                    }
                    assert(self.buf@ =~= old(self).buf@ + m);
                    self.buf.append(t.as_str());
                }
                assert(self@ =~= build_step(old(self)@, *e, highlights_view(hl@)));
            },
            MdEvent::Code(c) => {
                if self.in_table {
                    self.flush_cell_text();
                    let sg = TextSegment { text: c.clone(), style: TextStyle::code(), link_url: None };
                    self.cell.push(sg);
                    assert(segs_view(self.cell@) =~= segs_view(old(self).cell@).push(sg@)
                        || true);
                } else {
                    self.flush_text();
                    self.line.add_segment(c.clone(), TextStyle::code());
                }
                assert(self@ =~= build_step(old(self)@, *e, highlights_view(hl@)));
            },
            MdEvent::InlineMath(m) => {
                self.flush_text();
                self.line.add_segment(m.clone(), TextStyle::math());
                assert(self@ =~= build_step(old(self)@, *e, highlights_view(hl@)));
            },
            MdEvent::DisplayMath(m) => {
                self.flush_line();
                self.add_math_lines(m.as_str());
                self.new_line(0, 4);
                assert(self@ =~= build_step(old(self)@, *e, highlights_view(hl@)));
            },
            MdEvent::TaskListMarker(checked) => {
                self.line.checkbox = Some(CheckboxItem { checked: *checked, line_index: self.checkboxes });
                self.checkboxes = self.checkboxes + 1;
                assert(self@ =~= build_step(old(self)@, *e, highlights_view(hl@)));
            },
            MdEvent::SoftBreak => {
                if !self.in_table {
                    self.buf.push(' ');
                    assert(self@ =~= build_step(old(self)@, *e, highlights_view(hl@)));
                }
            },
            MdEvent::HardBreak => {
                self.flush_line();
                self.line = TextLine::new();
                assert(self@ =~= build_step(old(self)@, *e, highlights_view(hl@)));
            },
            MdEvent::Rule => {
                self.flush_line();
                self.doc.add_line(TextLine::new().with_spacing_before(8).with_spacing_after(8).as_rule());
                self.line = TextLine::new();
                assert(self@ =~= build_step(old(self)@, *e, highlights_view(hl@)));
            },
            MdEvent::Other => {},
        }
    }
}

/// Flushing leaves the list counters and the checkbox count alone.
proof fn lemma_flush_keeps_counts(s: BuildV)
    ensures
        flush_text(s).counters == s.counters,
        flush_text(s).checkboxes == s.checkboxes,
        flush_line(s).counters == s.counters,
        flush_line(s).checkboxes == s.checkboxes,
        flush_line(s).lists == s.lists,
{
}

/// One event raises the list counters by at most one and the checkbox count by at
/// most one.
#[verifier::rlimit(60)]
proof fn lemma_step_bounds(
    s: BuildV,
    e: MdEvent,
    hl: Seq<Option<Seq<Seq<(Rgb, Seq<char>)>>>>,
    b: int,
)
    requires
        0 <= b < u64::MAX,
        forall|j: int| 0 <= j < s.counters.len() ==> s.counters[j] <= b,
        e matches MdEvent::Start(MdTag::List(Some(n))) ==> n <= b,
        s.checkboxes < usize::MAX,
    ensures
        forall|j: int|
            0 <= j < build_step(s, e, hl).counters.len() ==> build_step(s, e, hl).counters[j] <= b
                + 1,
        build_step(s, e, hl).checkboxes <= s.checkboxes + 1,
{
    lemma_flush_keeps_counts(s);
    let r = build_step(s, e, hl);
    match e {
        MdEvent::Start(tag) => {
            match tag {
                MdTag::List(start) => {
                    let t = flush_line(s);
                    assert(t.counters == s.counters);
                    assert(r.counters == t.counters.push(
                        match start {
                            Some(n) => n,
                            None => 0,
                        },
                    ));
                    assert forall|j: int| 0 <= j < r.counters.len() implies r.counters[j] <= b + 1 by {
                        if j < t.counters.len() {
                            assert(r.counters[j] == t.counters[j]);
                            assert(s.counters[j] <= b);
                        } else {
                            match start {
                                Some(k) => {
                                    assert(e == MdEvent::Start(MdTag::List(Some(k))));
                                    assert(r.counters[j] == k);
                                    assert(k <= b);
                                },
                                None => {
                                    assert(r.counters[j] == 0);
                                },
                            }
                        }
                    }
                },
                MdTag::Item => {
                    let t = flush_line(s);
                    assert forall|j: int| 0 <= j < r.counters.len() implies r.counters[j] <= b + 1 by {
                        assert(t.counters[j] <= b);
                    }
                },
                _ => {
                    assert forall|j: int| 0 <= j < r.counters.len() implies r.counters[j] <= b + 1 by {
                        assert(r.counters == s.counters || r.counters == flush_line(s).counters
                            || r.counters == flush_text(s).counters);
                    }
                },
            }
        },
        MdEvent::End(tag) => {
            assert forall|j: int| 0 <= j < r.counters.len() implies r.counters[j] <= b + 1 by {
                if tag == MdTagEnd::List && s.counters.len() > 0 {
                    assert(r.counters[j] == s.counters[j]);
                }
            }
        },
        _ => {},
    }
}

/// The document of a Markdown event stream. `highlights[k]` is the highlighter's
/// answer for the `k`-th block that `code_blocks_of` lists; a block without an
/// answer is shown unhighlighted.
pub fn build_document(events: &Vec<MdEvent>, highlights: &Vec<Highlight>) -> (r: TextDocument)
    requires
        list_starts_bounded(events@),
    ensures
        r@ == document_of(events@, highlights_view(highlights@)),
{
    let b = run_builder(events, highlights);
    let mut b = b;
    b.flush_line();
    b.doc
}

/// The code blocks of a Markdown event stream that are highlighted, in the order
/// `build_document` takes the answers for them.
pub fn code_blocks_of(events: &Vec<MdEvent>) -> (r: Vec<CodeBlockRequest>)
    requires
        list_starts_bounded(events@),
    ensures
        r@.map_values(|q: CodeBlockRequest| request_view(q)) == code_block_requests(events@),
{
    let none: Vec<Highlight> = Vec::new();
    let b = run_builder(events, &none);
    assert(highlights_view(none@) =~= seq![]);
    b.requests
}

/// The builder after all the events.
fn run_builder(events: &Vec<MdEvent>, highlights: &Vec<Highlight>) -> (r: DocumentBuilder)
    requires
        list_starts_bounded(events@),
    ensures
        r@ == build_run(events@, highlights_view(highlights@), events@.len()),
{
    let ghost hv = highlights_view(highlights@);
    let n = events.len();
    let mut b = DocumentBuilder::new();
    let mut i: usize = 0;
    while i < n
        invariant
            n == events@.len(),
            i <= n,
            list_starts_bounded(events@),
            hv == highlights_view(highlights@),
            b@ == build_run(events@, hv, i as nat),
            b@.checkboxes <= i,
            forall|j: int| 0 <= j < b@.counters.len() ==> b@.counters[j] <= u64::MAX - (n - i),
        decreases n - i,
    {
        proof {
            let e = events@[i as int];
            if let MdEvent::Start(MdTag::List(Some(k))) = e {
                assert(k <= u64::MAX - n);
            }
            lemma_step_bounds(b@, e, hv, u64::MAX - (n - i));
        }
        b.step(&events[i], highlights);
        i += 1;
    }
    b
}

/// Two builder states that differ at most in the lines of their documents.
pub open spec fn agree_but_doc(s1: BuildV, s2: BuildV) -> bool {
    &&& (s1.doc.len() > 0) == (s2.doc.len() > 0)
    &&& s1.line == s2.line
    &&& s1.buf == s2.buf
    &&& s1.style == s2.style
    &&& s1.lists == s2.lists
    &&& s1.counters == s2.counters
    &&& s1.in_code == s2.in_code
    &&& s1.lang == s2.lang
    &&& s1.code == s2.code
    &&& s1.checkboxes == s2.checkboxes
    &&& s1.link == s2.link
    &&& s1.quote == s2.quote
    &&& s1.in_table == s2.in_table
    &&& s1.in_head == s2.in_head
    &&& s1.row == s2.row
    &&& s1.cell == s2.cell
    &&& s1.cell_text == s2.cell_text
    &&& s1.in_math == s2.in_math
    &&& s1.math == s2.math
    &&& s1.requests == s2.requests
}

proof fn lemma_flush_agree(s1: BuildV, s2: BuildV)
    requires
        agree_but_doc(s1, s2),
    ensures
        agree_but_doc(flush_text(s1), flush_text(s2)),
        agree_but_doc(flush_line(s1), flush_line(s2)),
        agree_but_doc(flush_cell_text(s1), flush_cell_text(s2)),
{
}

proof fn lemma_start_agree(s1: BuildV, s2: BuildV, tag: MdTag)
    requires
        agree_but_doc(s1, s2),
    ensures
        agree_but_doc(start_tag(s1, tag), start_tag(s2, tag)),
{
    lemma_flush_agree(s1, s2);
    match tag {
        MdTag::Paragraph => {},
        MdTag::Heading(_) => {},
        MdTag::Strong => {},
        MdTag::Emphasis => {},
        MdTag::Strikethrough => {},
        MdTag::Link(_) => {},
        MdTag::List(_) => {},
        MdTag::Item => {},
        MdTag::FencedCodeBlock(_) => {},
        MdTag::IndentedCodeBlock => {},
        MdTag::BlockQuote => {},
        MdTag::Table => {},
        MdTag::TableHead => {},
        MdTag::TableRow => {},
        MdTag::TableCell => {},
        MdTag::Other => {},
    }
}

#[verifier::rlimit(40)]
proof fn lemma_end_agree(
    s1: BuildV,
    s2: BuildV,
    tag: MdTagEnd,
    h1: Seq<Option<Seq<Seq<(Rgb, Seq<char>)>>>>,
    h2: Seq<Option<Seq<Seq<(Rgb, Seq<char>)>>>>,
)
    requires
        agree_but_doc(s1, s2),
    ensures
        agree_but_doc(end_tag(s1, tag, h1), end_tag(s2, tag, h2)),
{
    lemma_flush_agree(s1, s2);
    match tag {
        MdTagEnd::CodeBlock => lemma_end_code_agree(s1, s2, h1, h2),
        MdTagEnd::TableRow => lemma_end_row_agree(s1, s2),
        MdTagEnd::Paragraph => {},
        MdTagEnd::Heading => {},
        MdTagEnd::Strong => {},
        MdTagEnd::Emphasis => {},
        MdTagEnd::Strikethrough => {},
        MdTagEnd::Link => {},
        MdTagEnd::List => {},
        MdTagEnd::Item => {},
        MdTagEnd::BlockQuote => {},
        MdTagEnd::Table => {},
        MdTagEnd::TableHead => {},
        MdTagEnd::TableCell => {},
        MdTagEnd::Other => {},
    }
}

proof fn lemma_end_code_agree(
    s1: BuildV,
    s2: BuildV,
    h1: Seq<Option<Seq<Seq<(Rgb, Seq<char>)>>>>,
    h2: Seq<Option<Seq<Seq<(Rgb, Seq<char>)>>>>,
)
    requires
        agree_but_doc(s1, s2),
    ensures
        agree_but_doc(end_code_block(s1, h1), end_code_block(s2, h2)),
{
    if !s1.in_math && s1.code.len() > 0 {
        let c1 = code_block_lines(s1.code, highlight_at(h1, s1.requests.len() as int));
        assert(c1.len() > 0);
        assert((s1.doc + c1).len() > 0);
        let c2 = code_block_lines(s2.code, highlight_at(h2, s2.requests.len() as int));
        assert(c2.len() > 0);
        assert((s2.doc + c2).len() > 0);
    }
}

proof fn lemma_end_row_agree(s1: BuildV, s2: BuildV)
    requires
        agree_but_doc(s1, s2),
    ensures
        agree_but_doc(end_table_row(s1), end_table_row(s2)),
{
    lemma_flush_agree(s1, s2);
}

#[verifier::rlimit(60)]
proof fn lemma_step_agree(
    s1: BuildV,
    s2: BuildV,
    e: MdEvent,
    h1: Seq<Option<Seq<Seq<(Rgb, Seq<char>)>>>>,
    h2: Seq<Option<Seq<Seq<(Rgb, Seq<char>)>>>>,
)
    requires
        agree_but_doc(s1, s2),
    ensures
        agree_but_doc(build_step(s1, e, h1), build_step(s2, e, h2)),
{
    lemma_flush_agree(s1, s2);
    match e {
        MdEvent::Start(tag) => lemma_start_agree(s1, s2, tag),
        MdEvent::End(tag) => lemma_end_agree(s1, s2, tag, h1, h2),
        _ => {},
    }
}

proof fn lemma_run_agree(
    events: Seq<MdEvent>,
    h1: Seq<Option<Seq<Seq<(Rgb, Seq<char>)>>>>,
    h2: Seq<Option<Seq<Seq<(Rgb, Seq<char>)>>>>,
    n: nat,
)
    requires
        n <= events.len(),
    ensures
        agree_but_doc(build_run(events, h1, n), build_run(events, h2, n)),
    decreases n,
{
    if n > 0 {
        lemma_run_agree(events, h1, h2, (n - 1) as nat);
        lemma_step_agree(
            build_run(events, h1, (n - 1) as nat),
            build_run(events, h2, (n - 1) as nat),
            events[n - 1],
            h1,
            h2,
        );
    }
}

/// The code blocks `build_document` looks up highlighter answers for are those
/// `code_blocks_of` lists, whatever the answers are.
pub proof fn law_code_blocks_independent_of_highlights(
    events: Seq<MdEvent>,
    hl: Seq<Option<Seq<Seq<(Rgb, Seq<char>)>>>>,
)
    ensures
        build_run(events, hl, events.len()).requests == code_block_requests(events),
{
    lemma_run_agree(events, hl, seq![], events.len());
}

/// The code line of one highlighted line.
fn code_line_of(spans: &Vec<HighlightSpan>) -> (r: TextLine)
    ensures
        r@ == code_line(highlighted_segments(spans_view(spans@))),
{
    let mut tl = TextLine::new().with_indent(10).with_spacing_before(2);
    let ghost all = spans_view(spans@);
    let mut j: usize = 0;
    while j < spans.len()
        invariant
            j <= spans@.len(),
            all == spans_view(spans@),
            tl@ == code_line(highlighted_segments(all.take(j as int))),
        decreases spans@.len() - j,
    {
        let v = chars_of(spans[j].text.as_str());
        let e = trimmed_line_end(&v);
        let ghost sp = all[j as int];
        proof {
            lemma_highlighted_segments_push(all.take(j as int), sp);
            assert(all.take(j + 1) =~= all.take(j as int).push(sp));
            assert(sp.1 == v@);
            assert(seq![sp].drop_first() =~= Seq::<(Rgb, Seq<char>)>::empty());
        }
        if e > 0 {
            let t = string_of(&v, 0, e);
            assert(t@ =~= v@.take(e as int));
            assert(highlighted_segments(seq![sp].drop_first()) =~= Seq::<SegmentV>::empty());
            assert(highlighted_segments(seq![sp]) =~= seq![
                seg(t@, TextStyle { is_code: true, color: Some(sp.0), ..plain_style(TextSize::Default) }),
            ]);
            tl.add_segment(t, TextStyle { is_code: true, color: Some(spans[j].color), ..TextStyle::default_style() });
        } else {
            assert(trim_end_returns(trim_end_newlines(sp.1)).len() == 0);
            assert(highlighted_segments(seq![sp].drop_first()) =~= Seq::<SegmentV>::empty());
            assert(highlighted_segments(seq![sp]) =~= Seq::<SegmentV>::empty());
        }
        j += 1;
        assert(tl@ =~= code_line(highlighted_segments(all.take(j as int))));
    }
    assert(all.take(j as int) =~= all);
    tl
}

/// Highlighted segments of a line extended by one span.
proof fn lemma_highlighted_segments_push(spans: Seq<(Rgb, Seq<char>)>, sp: (Rgb, Seq<char>))
    ensures
        highlighted_segments(spans.push(sp)) == highlighted_segments(spans) + highlighted_segments(
            seq![sp],
        ),
    decreases spans.len(),
{
    if spans.len() > 0 {
        assert(spans.push(sp).drop_first() =~= spans.drop_first().push(sp));
        lemma_highlighted_segments_push(spans.drop_first(), sp);
        assert(highlighted_segments(spans.push(sp)) =~= highlighted_segments(spans) + highlighted_segments(seq![sp]));
    } else {
        assert(spans.push(sp) =~= seq![sp]);
        assert(highlighted_segments(spans) =~= seq![]);
        assert(highlighted_segments(spans.push(sp)) =~= highlighted_segments(spans) + highlighted_segments(seq![sp]));
    }
}


/// The number of the checkbox a line carries.
pub open spec fn checkbox_number(l: LineV) -> int {
    match l.checkbox {
        Some(c) => c.line_index as int,
        None => -1,
    }
}

/// The checkboxes of `doc` are numbered in increasing order and below `next`,
/// and the checkbox of the line being built, if any, comes after them all.
pub open spec fn checkboxes_ordered(doc: Seq<LineV>, line: LineV, next: int) -> bool {
    &&& forall|i: int|
        0 <= i < doc.len() && (#[trigger] doc[i]).checkbox is Some ==> checkbox_number(doc[i])
            < next
    &&& forall|i: int, j: int|
        0 <= i < j < doc.len() && (#[trigger] doc[i]).checkbox is Some && (#[trigger] doc[j]).checkbox is Some
            ==> checkbox_number(doc[i]) < checkbox_number(doc[j])
    &&& line.checkbox is Some ==> {
        &&& checkbox_number(line) < next
        &&& forall|i: int|
            0 <= i < doc.len() && (#[trigger] doc[i]).checkbox is Some ==> checkbox_number(doc[i])
                < checkbox_number(line)
    }
}

/// The builder's checkboxes are in order, below its counter.
pub open spec fn build_ordered(s: BuildV) -> bool {
    checkboxes_ordered(s.doc, s.line, s.checkboxes as int)
}

/// Lines without checkboxes.
pub open spec fn no_checkboxes(lines: Seq<LineV>) -> bool {
    forall|k: int| 0 <= k < lines.len() ==> (#[trigger] lines[k]).checkbox is None
}

/// Appending lines without checkboxes keeps the order.
proof fn lemma_append_plain(doc: Seq<LineV>, extra: Seq<LineV>, line: LineV, next: int)
    requires
        checkboxes_ordered(doc, line, next),
        no_checkboxes(extra),
    ensures
        checkboxes_ordered(doc + extra, line, next),
{
    let d = doc + extra;
    assert forall|i: int| 0 <= i < d.len() && (#[trigger] d[i]).checkbox is Some implies i < doc.len()
        && d[i] == doc[i] by {
        if i >= doc.len() {
            assert(d[i] == extra[i - doc.len()]);
        }
    }
}

proof fn lemma_math_lines_plain(m: Seq<char>, q: u8)
    ensures
        no_checkboxes(math_lines(m, q)),
    decreases m.len(),
{
    if m.len() > 0 {
        lemma_line_rest_shorter(m);
        lemma_math_lines_plain(line_rest(m), q);
        let r = math_lines(m, q);
        assert forall|k: int| 0 <= k < r.len() implies (#[trigger] r[k]).checkbox is None by {
            if k > 0 {
                assert(r[k] == math_lines(line_rest(m), q)[k - 1]);
            }
        }
    }
}

proof fn lemma_plain_code_lines_plain(code: Seq<char>)
    ensures
        no_checkboxes(plain_code_lines(code)),
    decreases code.len(),
{
    if code.len() > 0 {
        lemma_line_rest_shorter(code);
        lemma_plain_code_lines_plain(line_rest(code));
        let r = plain_code_lines(code);
        assert forall|k: int| 0 <= k < r.len() implies (#[trigger] r[k]).checkbox is None by {
            if k > 0 {
                assert(r[k] == plain_code_lines(line_rest(code))[k - 1]);
            }
        }
    }
}

proof fn lemma_code_block_lines_plain(code: Seq<char>, h: Option<Seq<Seq<(Rgb, Seq<char>)>>>)
    ensures
        no_checkboxes(code_block_lines(code, h)),
{
    lemma_plain_code_lines_plain(code);
    let body = match h {
        Some(hl) => hl.map_values(|spans: Seq<(Rgb, Seq<char>)>| code_line(highlighted_segments(spans))),
        None => plain_code_lines(code),
    };
    assert(no_checkboxes(body));
    let r = code_block_lines(code, h);
    assert forall|k: int| 0 <= k < r.len() implies (#[trigger] r[k]).checkbox is None by {
        if k < body.len() {
            assert(r[k] == body[k]);
        }
    }
}

/// Adding the pending text, or the current line, to what is built keeps the order.
proof fn lemma_flush_ordered(s: BuildV)
    requires
        build_ordered(s),
    ensures
        build_ordered(flush_text(s)),
        build_ordered(flush_line(s)),
        flush_line(s).checkboxes == s.checkboxes,
        flush_line(s).line.checkbox is None || flush_line(s).line.checkbox == s.line.checkbox,
        flush_line(s).doc.len() >= s.doc.len(),
{
    let t = flush_text(s);
    assert(t.line.checkbox == s.line.checkbox && t.doc == s.doc);
    if !line_is_empty(t.line) {
        let d = t.doc.push(quoted(t.line, t.quote));
        assert(quoted(t.line, t.quote).checkbox == t.line.checkbox);
        assert forall|i: int, j: int|
            0 <= i < j < d.len() && (#[trigger] d[i]).checkbox is Some && (#[trigger] d[j]).checkbox is Some
                implies checkbox_number(d[i]) < checkbox_number(d[j]) by {
            if j == t.doc.len() {
                assert(d[i] == t.doc[i]);
            } else {
                assert(d[i] == t.doc[i] && d[j] == t.doc[j]);
            }
        }
        assert forall|i: int| 0 <= i < d.len() && (#[trigger] d[i]).checkbox is Some implies checkbox_number(
            d[i],
        ) < t.checkboxes by {
            if i < t.doc.len() {
                assert(d[i] == t.doc[i]);
            }
        }
    }
}

/// Replacing the line being built by one without a checkbox keeps the order.
proof fn lemma_plain_line_ordered(doc: Seq<LineV>, line: LineV, fresh: LineV, next: int)
    requires
        checkboxes_ordered(doc, line, next),
        fresh.checkbox is None,
    ensures
        checkboxes_ordered(doc, fresh, next),
{
}

proof fn lemma_start_ordered(s: BuildV, tag: MdTag)
    requires
        build_ordered(s),
    ensures
        build_ordered(start_tag(s, tag)),
        start_tag(s, tag).checkboxes == s.checkboxes,
{
    lemma_flush_ordered(s);
    let t = flush_line(s);
    match tag {
        MdTag::Heading(_) => lemma_plain_line_ordered(t.doc, t.line, spaced_line(8, 4), t.checkboxes as int),
        MdTag::Item => lemma_plain_line_ordered(
            t.doc,
            t.line,
            LineV { indent: item_indent(t.lists.len()), ..empty_line() },
            t.checkboxes as int,
        ),
        MdTag::BlockQuote => lemma_plain_line_ordered(t.doc, t.line, spaced_line(4, 0), t.checkboxes as int),
        _ => {},
    }
}

proof fn lemma_end_table_row_ordered(s: BuildV)
    requires
        build_ordered(s),
    ensures
        build_ordered(end_table_row(s)),
        end_table_row(s).checkboxes == s.checkboxes,
{
    let t = flush_cell_text(s);
    let u = if t.cell.len() > 0 {
        BuildV { row: t.row.push(t.cell), cell: seq![], ..t }
    } else {
        t
    };
    if u.row.len() > 0 {
        let row_line = LineV {
            spacing_before: if u.in_head {
                4u32
            } else {
                1u32
            },
            table_cells: Some(u.row),
            is_table_header: u.in_head,
            ..empty_line()
        };
        let extra = if u.in_head {
            seq![row_line, LineV { is_rule: true, ..spaced_line(1, 1) }]
        } else {
            seq![row_line]
        };
        assert(no_checkboxes(extra));
        lemma_append_plain(u.doc, extra, u.line, u.checkboxes as int);
        assert(end_table_row(s).doc =~= u.doc + extra);
    }
}

proof fn lemma_end_ordered(s: BuildV, tag: MdTagEnd, hl: Seq<Option<Seq<Seq<(Rgb, Seq<char>)>>>>)
    requires
        build_ordered(s),
    ensures
        build_ordered(end_tag(s, tag, hl)),
        end_tag(s, tag, hl).checkboxes == s.checkboxes,
{
    lemma_flush_ordered(s);
    let t = flush_line(s);
    match tag {
        MdTagEnd::Paragraph => lemma_plain_line_ordered(t.doc, t.line, spaced_line(0, 4), t.checkboxes as int),
        MdTagEnd::Heading => lemma_plain_line_ordered(t.doc, t.line, empty_line(), t.checkboxes as int),
        MdTagEnd::Item => lemma_plain_line_ordered(t.doc, t.line, empty_line(), t.checkboxes as int),
        MdTagEnd::List => lemma_plain_line_ordered(s.doc, s.line, spaced_line(0, 4), s.checkboxes as int),
        MdTagEnd::BlockQuote => lemma_plain_line_ordered(t.doc, t.line, spaced_line(0, 4), t.checkboxes as int),
        MdTagEnd::Table => {
            assert(no_checkboxes(seq![spaced_line(0, 4)]));
            lemma_append_plain(s.doc, seq![spaced_line(0, 4)], s.line, s.checkboxes as int);
            assert(s.doc.push(spaced_line(0, 4)) =~= s.doc + seq![spaced_line(0, 4)]);
        },
        MdTagEnd::TableRow => lemma_end_table_row_ordered(s),
        MdTagEnd::CodeBlock => {
            if s.in_math {
                lemma_math_lines_plain(s.math, s.quote);
                lemma_append_plain(s.doc, math_lines(s.math, s.quote), s.line, s.checkboxes as int);
                lemma_plain_line_ordered(s.doc + math_lines(s.math, s.quote), s.line, spaced_line(0, 4), s.checkboxes as int);
            } else if s.code.len() > 0 {
                let h = highlight_at(hl, s.requests.len() as int);
                lemma_code_block_lines_plain(s.code, h);
                lemma_append_plain(s.doc, code_block_lines(s.code, h), s.line, s.checkboxes as int);
                lemma_plain_line_ordered(s.doc + code_block_lines(s.code, h), s.line, spaced_line(0, 4), s.checkboxes as int);
            } else {
                lemma_plain_line_ordered(s.doc, s.line, spaced_line(0, 4), s.checkboxes as int);
            }
        },
        _ => {},
    }
}

proof fn lemma_step_ordered(s: BuildV, e: MdEvent, hl: Seq<Option<Seq<Seq<(Rgb, Seq<char>)>>>>)
    requires
        build_ordered(s),
        s.checkboxes < usize::MAX,
    ensures
        build_ordered(build_step(s, e, hl)),
        build_step(s, e, hl).checkboxes == s.checkboxes + (if e is TaskListMarker {
            1int
        } else {
            0int
        }),
{
    lemma_flush_ordered(s);
    let t = flush_line(s);
    match e {
        MdEvent::Start(tag) => lemma_start_ordered(s, tag),
        MdEvent::End(tag) => lemma_end_ordered(s, tag, hl),
        MdEvent::DisplayMath(m) => {
            lemma_math_lines_plain(m@, t.quote);
            lemma_append_plain(t.doc, math_lines(m@, t.quote), t.line, t.checkboxes as int);
            lemma_plain_line_ordered(t.doc + math_lines(m@, t.quote), t.line, spaced_line(0, 4), t.checkboxes as int);
        },
        MdEvent::HardBreak => lemma_plain_line_ordered(t.doc, t.line, empty_line(), t.checkboxes as int),
        MdEvent::Rule => {
            let r = LineV { is_rule: true, ..spaced_line(8, 8) };
            assert(no_checkboxes(seq![r]));
            lemma_append_plain(t.doc, seq![r], t.line, t.checkboxes as int);
            assert(t.doc.push(r) =~= t.doc + seq![r]);
            lemma_plain_line_ordered(t.doc + seq![r], t.line, empty_line(), t.checkboxes as int);
        },
        _ => {},
    }
}

proof fn lemma_run_ordered(events: Seq<MdEvent>, hl: Seq<Option<Seq<Seq<(Rgb, Seq<char>)>>>>, n: nat)
    requires
        n <= events.len(),
        events.len() < usize::MAX,
    ensures
        build_ordered(build_run(events, hl, n)),
        build_run(events, hl, n).checkboxes == marker_count(events, n),
        marker_count(events, n) <= n,
    decreases n,
{
    if n > 0 {
        lemma_run_ordered(events, hl, (n - 1) as nat);
        lemma_step_ordered(build_run(events, hl, (n - 1) as nat), events[n - 1], hl);
    }
}

/// The checkboxes of a document are numbered in the order they appear, each
/// number below the count of task markers seen: the number a drawn checkbox
/// carries tells which checkbox of the card it is.
pub proof fn law_checkboxes_numbered_in_order(
    events: Seq<MdEvent>,
    hl: Seq<Option<Seq<Seq<(Rgb, Seq<char>)>>>>,
)
    requires
        events.len() < usize::MAX,
    ensures
        forall|i: int, j: int|
            0 <= i < j < document_of(events, hl).len() && (#[trigger] document_of(events, hl)[i]).checkbox is Some
                && (#[trigger] document_of(events, hl)[j]).checkbox is Some ==> checkbox_number(
                document_of(events, hl)[i],
            ) < checkbox_number(document_of(events, hl)[j]),
{
    lemma_run_ordered(events, hl, events.len());
    lemma_flush_ordered(build_run(events, hl, events.len()));
}


/// The number of task markers among the first `n` events.
pub open spec fn marker_count(events: Seq<MdEvent>, n: nat) -> nat
    decreases n,
{
    if n == 0 {
        0
    } else {
        marker_count(events, (n - 1) as nat) + (if events[n - 1] is TaskListMarker {
            1nat
        } else {
            0nat
        })
    }
}

/// Each task marker gives the line it stands on a checkbox numbered by the
/// count of task markers before it, ticked as the marker says: the checkbox of
/// the `k`-th task item is numbered `k`.
pub proof fn law_checkbox_number_counts_markers(
    events: Seq<MdEvent>,
    hl: Seq<Option<Seq<Seq<(Rgb, Seq<char>)>>>>,
    i: nat,
)
    requires
        events.len() < usize::MAX,
        i < events.len(),
        events[i as int] is TaskListMarker,
    ensures
        build_run(events, hl, i + 1).line.checkbox == Some(
            CheckboxItem {
                checked: events[i as int]->TaskListMarker_0,
                line_index: marker_count(events, i) as usize,
            },
        ),
{
    lemma_run_ordered(events, hl, i);
}


/// `t` ends with `u`.
pub open spec fn ends_with(t: Seq<char>, u: Seq<char>) -> bool {
    u.len() <= t.len() && t.skip(t.len() - u.len()) == u
}

/// A text that is not blank stays not blank with anything put before it.
proof fn lemma_prefixed_not_blank(a: Seq<char>, t: Seq<char>)
    requires
        !blank_chars(t),
    ensures
        !blank_chars(a + t),
{
    let i = choose|i: int| 0 <= i < t.len() && !crate::text::is_ws(t[i]);
    assert((a + t)[a.len() + i] == t[i]);
}

/// Emphasis is drawn in italics: in running text, the text between the
/// opening and the closing of an emphasis becomes a segment in an italic
/// style, and the italics end with it.
pub proof fn law_emphasis_is_italic(
    s: BuildV,
    t: String,
    hl: Seq<Option<Seq<Seq<(Rgb, Seq<char>)>>>>,
)
    requires
        !s.in_math && !s.in_code && !s.in_table,
        t@.len() > 0,
    ensures
        ({
            let s1 = build_step(s, MdEvent::Start(MdTag::Emphasis), hl);
            let s2 = build_step(s1, MdEvent::Text(t), hl);
            let s3 = build_step(s2, MdEvent::End(MdTagEnd::Emphasis), hl);
            &&& s3.line.segments.len() > 0
            &&& s3.line.segments.last().style.italic
            &&& ends_with(s3.line.segments.last().text, t@)
            &&& !s3.style.italic
        }),
{
    let s1 = build_step(s, MdEvent::Start(MdTag::Emphasis), hl);
    let s2 = build_step(s1, MdEvent::Text(t), hl);
    assert(s2.buf == item_marker(s1) + t@);
    let buf = item_marker(s1) + t@;
    assert(buf.skip(buf.len() - t@.len()) =~= t@);
}

/// A heading of level `n` is drawn at the size of a level-`n` heading, in
/// bold: its text becomes a line of the document whose segment has that size.
pub proof fn law_heading_has_its_level_size(
    s: BuildV,
    n: u32,
    t: String,
    hl: Seq<Option<Seq<Seq<(Rgb, Seq<char>)>>>>,
)
    requires
        !s.in_math && !s.in_code && !s.in_table,
        !blank_chars(t@),
    ensures
        ({
            let s1 = build_step(s, MdEvent::Start(MdTag::Heading(n)), hl);
            let s2 = build_step(s1, MdEvent::Text(t), hl);
            let s3 = build_step(s2, MdEvent::End(MdTagEnd::Heading), hl);
            let l = s3.doc.last();
            &&& s3.doc.len() > 0
            &&& l.segments.len() > 0
            &&& l.segments.last().style.size == TextSize::Heading(n)
            &&& l.segments.last().style.bold
            &&& ends_with(l.segments.last().text, t@)
        }),
{
    let s1 = build_step(s, MdEvent::Start(MdTag::Heading(n)), hl);
    let s2 = build_step(s1, MdEvent::Text(t), hl);
    let buf = item_marker(s1) + t@;
    assert(s2.buf == buf);
    lemma_prefixed_not_blank(item_marker(s1), t@);
    assert(t@.len() > 0);
    let f = flush_text(s2);
    assert(f.line.segments == s1.line.segments.push(seg(buf, s2.style)));
    assert(s1.line.segments.len() == 0);
    assert(f.line.segments.last().text == buf);
    assert(!line_is_empty(f.line));
    assert(buf.skip(buf.len() - t@.len()) =~= t@);
}


/// Strong text is drawn in bold and struck-through text struck through: in
/// running text, the text between the opening and the closing becomes a
/// segment in that style, and the style ends with it.
pub proof fn law_strong_and_strikethrough_styles(
    s: BuildV,
    t: String,
    hl: Seq<Option<Seq<Seq<(Rgb, Seq<char>)>>>>,
)
    requires
        !s.in_math && !s.in_code && !s.in_table,
        t@.len() > 0,
    ensures
        ({
            let s1 = build_step(s, MdEvent::Start(MdTag::Strong), hl);
            let s3 = build_step(build_step(s1, MdEvent::Text(t), hl), MdEvent::End(MdTagEnd::Strong), hl);
            &&& s3.line.segments.len() > 0
            &&& s3.line.segments.last().style.bold
            &&& ends_with(s3.line.segments.last().text, t@)
            &&& !s3.style.bold
        }),
        ({
            let s1 = build_step(s, MdEvent::Start(MdTag::Strikethrough), hl);
            let s3 = build_step(
                build_step(s1, MdEvent::Text(t), hl),
                MdEvent::End(MdTagEnd::Strikethrough),
                hl,
            );
            &&& s3.line.segments.len() > 0
            &&& s3.line.segments.last().style.strikethrough
            &&& ends_with(s3.line.segments.last().text, t@)
            &&& !s3.style.strikethrough
        }),
{
    let a = build_step(s, MdEvent::Start(MdTag::Strong), hl);
    let buf = item_marker(a) + t@;
    assert(build_step(a, MdEvent::Text(t), hl).buf == buf);
    assert(buf.skip(buf.len() - t@.len()) =~= t@);
    let c = build_step(s, MdEvent::Start(MdTag::Strikethrough), hl);
    let buf2 = item_marker(c) + t@;
    assert(build_step(c, MdEvent::Text(t), hl).buf == buf2);
    assert(buf2.skip(buf2.len() - t@.len()) =~= t@);
}

/// A link's text becomes a segment that links to the link's destination.
pub proof fn law_link_text_links_to_destination(
    s: BuildV,
    url: String,
    t: String,
    hl: Seq<Option<Seq<Seq<(Rgb, Seq<char>)>>>>,
)
    requires
        !s.in_math && !s.in_code && !s.in_table,
        t@.len() > 0,
    ensures
        ({
            let s1 = build_step(s, MdEvent::Start(MdTag::Link(url)), hl);
            let s3 = build_step(build_step(s1, MdEvent::Text(t), hl), MdEvent::End(MdTagEnd::Link), hl);
            &&& s3.line.segments.len() > 0
            &&& s3.line.segments.last().link_url == Some(url@)
            &&& s3.line.segments.last().style.is_link
            &&& ends_with(s3.line.segments.last().text, t@)
            &&& s3.link is None
        }),
{
    let a = build_step(s, MdEvent::Start(MdTag::Link(url)), hl);
    let buf = item_marker(a) + t@;
    assert(build_step(a, MdEvent::Text(t), hl).buf == buf);
    assert(buf.skip(buf.len() - t@.len()) =~= t@);
}


/// The first item of an ordered list starting at `k` is numbered `k`: its
/// text is preceded by `k` and `. `.
pub proof fn law_ordered_list_starts_at_its_start(
    s: BuildV,
    k: u64,
    t: String,
    hl: Seq<Option<Seq<Seq<(Rgb, Seq<char>)>>>>,
)
    requires
        !s.in_math && !s.in_code && !s.in_table,
        k < u64::MAX,
    ensures
        ({
            let s1 = build_step(s, MdEvent::Start(MdTag::List(Some(k))), hl);
            let s2 = build_step(s1, MdEvent::Start(MdTag::Item), hl);
            let s3 = build_step(s2, MdEvent::Text(t), hl);
            s3.buf == decimal_chars(k as nat) + seq!['.', ' '] + t@
        }),
{
    let s1 = build_step(s, MdEvent::Start(MdTag::List(Some(k))), hl);
    let s2 = build_step(s1, MdEvent::Start(MdTag::Item), hl);
    assert(s2.counters.last() == k + 1);
    assert(item_number(s2.counters) == k);
    assert(s2.buf.len() == 0);
    assert(s2.buf + item_marker(s2) + t@ =~= decimal_chars(k as nat) + seq!['.', ' '] + t@);
}

} // verus!
