//! The styled document that Markdown card content is turned into before it is
//! drawn: lines of styled text segments, with checkboxes, rules, quotes, math
//! blocks and table rows.
//!
//! Sizes and spacings are kept as plain values: a `TextSize` names the size a
//! renderer gives the text, and indents and spacings are whole pixels.
use vstd::prelude::*;
use crate::text::{blank_chars, is_blank};

verus! {

/// Represents a checkbox item.
#[derive(Debug, Clone, Copy, PartialEq, Eq, Structural)]
pub struct CheckboxItem {
    pub checked: bool,
    /// Index among the checkboxes of the document, identifying this checkbox.
    pub line_index: usize,
}

/// The size a renderer gives a piece of text.
#[derive(Debug, Clone, Copy, PartialEq, Eq, Structural)]
pub enum TextSize {
    /// The base font size the document is rendered at.
    Base,
    /// The size of a heading of the given level (1 to 6), relative to the base size.
    Heading(u32),
    /// The fixed default size of 14 points.
    Default,
    /// The size of a heading of the given level (1 to 6), relative to the
    /// default size.
    DefaultHeading(u32),
}

/// An RGB colour with 8-bit channels.
#[derive(Debug, Clone, Copy, PartialEq, Eq, Structural)]
pub struct Rgb {
    pub r: u8,
    pub g: u8,
    pub b: u8,
}

/// Text styling options.
#[derive(Debug, Clone, Copy, PartialEq, Eq, Structural)]
pub struct TextStyle {
    pub size: TextSize,
    pub bold: bool,
    pub italic: bool,
    pub strikethrough: bool,
    pub underline: bool,
    pub is_code: bool,
    pub is_link: bool,
    pub is_math: bool,
    /// None means use the default colour.
    pub color: Option<Rgb>,
}

/// The plain style at the given size.
pub open spec fn plain_style(size: TextSize) -> TextStyle {
    TextStyle {
        size,
        bold: false,
        italic: false,
        strikethrough: false,
        underline: false,
        is_code: false,
        is_link: false,
        is_math: false,
        color: None,
    }
}

impl Default for TextStyle {
    /// The plain style at the default size.
    fn default() -> (r: Self)
        ensures
            r == plain_style(TextSize::Default),
    {
        TextStyle::default_style()
    }
}

impl TextStyle {
    /// The plain style at the base size.
    pub fn with_base_size() -> (r: Self)
        ensures
            r == plain_style(TextSize::Base),
    {
        TextStyle {
            size: TextSize::Base,
            bold: false,
            italic: false,
            strikethrough: false,
            underline: false,
            is_code: false,
            is_link: false,
            is_math: false,
            color: None,
        }
    }

    /// The plain style at the default size.
    pub fn default_style() -> (r: Self)
        ensures
            r == plain_style(TextSize::Default),
    {
        TextStyle { size: TextSize::Default, ..Self::with_base_size() }
    }

    /// The bold style of a heading of the given level, sized from the default
    /// size.
    pub fn heading(level: u32) -> (r: Self)
        ensures
            r == (TextStyle { size: TextSize::DefaultHeading(level), bold: true, ..plain_style(TextSize::Base) }),
    {
        TextStyle { size: TextSize::DefaultHeading(level), bold: true, ..Self::with_base_size() }
    }

    /// The bold style of a heading of the given level.
    pub fn heading_with_base(level: u32) -> (r: Self)
        ensures
            r == (TextStyle { size: TextSize::Heading(level), bold: true, ..plain_style(TextSize::Base) }),
    {
        TextStyle { size: TextSize::Heading(level), bold: true, ..Self::with_base_size() }
    }

    pub fn bold() -> (r: Self)
        ensures
            r == (TextStyle { bold: true, ..plain_style(TextSize::Default) }),
    {
        TextStyle { bold: true, ..Self::default_style() }
    }

    pub fn italic() -> (r: Self)
        ensures
            r == (TextStyle { italic: true, ..plain_style(TextSize::Default) }),
    {
        TextStyle { italic: true, ..Self::default_style() }
    }

    pub fn code() -> (r: Self)
        ensures
            r == (TextStyle { is_code: true, ..plain_style(TextSize::Default) }),
    {
        TextStyle { is_code: true, ..Self::default_style() }
    }

    pub fn strikethrough() -> (r: Self)
        ensures
            r == (TextStyle { strikethrough: true, ..plain_style(TextSize::Default) }),
    {
        TextStyle { strikethrough: true, ..Self::default_style() }
    }

    /// The style of math at the base size.
    pub fn math() -> (r: Self)
        ensures
            r == (TextStyle { is_math: true, ..plain_style(TextSize::Base) }),
    {
        TextStyle { is_math: true, ..Self::with_base_size() }
    }

    pub fn with_bold(self, bold: bool) -> (r: Self)
        ensures
            r == (TextStyle { bold, ..self }),
    {
        TextStyle { bold, ..self }
    }

    pub fn with_italic(self, italic: bool) -> (r: Self)
        ensures
            r == (TextStyle { italic, ..self }),
    {
        TextStyle { italic, ..self }
    }

    pub fn with_strikethrough(self, strikethrough: bool) -> (r: Self)
        ensures
            r == (TextStyle { strikethrough, ..self }),
    {
        TextStyle { strikethrough, ..self }
    }

    pub fn with_underline(self, underline: bool) -> (r: Self)
        ensures
            r == (TextStyle { underline, ..self }),
    {
        TextStyle { underline, ..self }
    }

    /// The style of a link: underlined.
    pub fn with_link(self) -> (r: Self)
        ensures
            r == (TextStyle { is_link: true, underline: true, ..self }),
    {
        TextStyle { is_link: true, underline: true, ..self }
    }
}

/// Represents a styled text segment.
#[derive(Debug, Clone)]
pub struct TextSegment {
    pub text: String,
    pub style: TextStyle,
    pub link_url: Option<String>,
}

/// The mathematical value of a segment.
#[verifier::ext_equal]
pub struct SegmentV {
    pub text: Seq<char>,
    pub style: TextStyle,
    pub link_url: Option<Seq<char>>,
}

impl View for TextSegment {
    type V = SegmentV;

    open spec fn view(&self) -> SegmentV {
        SegmentV {
            text: self.text@,
            style: self.style,
            link_url: match self.link_url {
                Some(u) => Some(u@),
                None => None,
            },
        }
    }
}

/// The values of a list of segments.
pub open spec fn segs_view(v: Seq<TextSegment>) -> Seq<SegmentV> {
    v.map_values(|s: TextSegment| s@)
}

/// The values of the cells of a table row.
pub open spec fn cells_view(v: Seq<Vec<TextSegment>>) -> Seq<Seq<SegmentV>> {
    v.map_values(|c: Vec<TextSegment>| segs_view(c@))
}

/// Represents a line of text segments.
#[derive(Debug, Clone)]
pub struct TextLine {
    pub segments: Vec<TextSegment>,
    pub indent: u64,
    pub spacing_before: u32,
    pub spacing_after: u32,
    /// If this line has a checkbox.
    pub checkbox: Option<CheckboxItem>,
    /// Horizontal rule, rendered as a full-width line.
    pub is_rule: bool,
    /// Nesting depth of the block quotes the line stands in.
    pub quote_depth: u8,
    /// A line of a display-math block.
    pub is_math_block: bool,
    /// The cells of a table row.
    pub table_cells: Option<Vec<Vec<TextSegment>>>,
    /// The table row is the header row.
    pub is_table_header: bool,
}

/// The mathematical value of a line.
#[verifier::ext_equal]
pub struct LineV {
    pub segments: Seq<SegmentV>,
    pub indent: u64,
    pub spacing_before: u32,
    pub spacing_after: u32,
    pub checkbox: Option<CheckboxItem>,
    pub is_rule: bool,
    pub quote_depth: u8,
    pub is_math_block: bool,
    pub table_cells: Option<Seq<Seq<SegmentV>>>,
    pub is_table_header: bool,
}

impl View for TextLine {
    type V = LineV;

    open spec fn view(&self) -> LineV {
        LineV {
            segments: segs_view(self.segments@),
            indent: self.indent,
            spacing_before: self.spacing_before,
            spacing_after: self.spacing_after,
            checkbox: self.checkbox,
            is_rule: self.is_rule,
            quote_depth: self.quote_depth,
            is_math_block: self.is_math_block,
            table_cells: match self.table_cells {
                Some(c) => Some(cells_view(c@)),
                None => None,
            },
            is_table_header: self.is_table_header,
        }
    }
}

/// A new line: no segments, no indent or spacing, nothing special.
pub open spec fn empty_line() -> LineV {
    LineV {
        segments: seq![],
        indent: 0,
        spacing_before: 0,
        spacing_after: 0,
        checkbox: None,
        is_rule: false,
        quote_depth: 0,
        is_math_block: false,
        table_cells: None,
        is_table_header: false,
    }
}

/// A line is empty when it is no rule and all its segments are blank.
pub open spec fn line_is_empty(l: LineV) -> bool {
    !l.is_rule && forall|i: int| 0 <= i < l.segments.len() ==> blank_chars(
        #[trigger] l.segments[i].text,
    )
}

impl Default for TextLine {
    /// A line without segments, indent, spacing, checkbox or rule.
    fn default() -> (r: Self)
        ensures
            r@ == empty_line(),
    {
        TextLine::new()
    }
}

impl TextLine {
    pub fn new() -> (r: Self)
        ensures
            r@ == empty_line(),
    {
        let r = TextLine {
            segments: Vec::new(),
            indent: 0,
            spacing_before: 0,
            spacing_after: 0,
            checkbox: None,
            is_rule: false,
            quote_depth: 0,
            is_math_block: false,
            table_cells: None,
            is_table_header: false,
        };
        assert(r@.segments =~= seq![]);
        r
    }

    pub fn with_indent(self, indent: u64) -> (r: Self)
        ensures
            r@ == (LineV { indent, ..self@ }),
    {
        TextLine { indent, ..self }
    }

    pub fn with_spacing_before(self, spacing: u32) -> (r: Self)
        ensures
            r@ == (LineV { spacing_before: spacing, ..self@ }),
    {
        TextLine { spacing_before: spacing, ..self }
    }

    pub fn with_spacing_after(self, spacing: u32) -> (r: Self)
        ensures
            r@ == (LineV { spacing_after: spacing, ..self@ }),
    {
        TextLine { spacing_after: spacing, ..self }
    }

    pub fn add_segment(&mut self, text: String, style: TextStyle)
        ensures
            final(self)@ == (LineV {
                segments: old(self)@.segments.push(SegmentV { text: text@, style, link_url: None }),
                ..old(self)@
            }),
    {
        let seg = TextSegment { text, style, link_url: None };
        self.segments.push(seg);
        assert(segs_view(self.segments@) =~= segs_view(old(self).segments@).push(seg@));
    }

    pub fn add_link_segment(&mut self, text: String, style: TextStyle, url: String)
        ensures
            final(self)@ == (LineV {
                segments: old(self)@.segments.push(
                    SegmentV { text: text@, style, link_url: Some(url@) },
                ),
                ..old(self)@
            }),
    {
        let seg = TextSegment { text, style, link_url: Some(url) };
        self.segments.push(seg);
        assert(segs_view(self.segments@) =~= segs_view(old(self).segments@).push(seg@));
    }

    pub fn with_checkbox(self, checked: bool, line_index: usize) -> (r: Self)
        ensures
            r@ == (LineV { checkbox: Some(CheckboxItem { checked, line_index }), ..self@ }),
    {
        TextLine { checkbox: Some(CheckboxItem { checked, line_index }), ..self }
    }

    pub fn as_rule(self) -> (r: Self)
        ensures
            r@ == (LineV { is_rule: true, ..self@ }),
    {
        TextLine { is_rule: true, ..self }
    }

    pub fn as_math_block(self) -> (r: Self)
        ensures
            r@ == (LineV { is_math_block: true, ..self@ }),
    {
        TextLine { is_math_block: true, ..self }
    }

    pub fn with_quote_depth(self, quote_depth: u8) -> (r: Self)
        ensures
            r@ == (LineV { quote_depth, ..self@ }),
    {
        TextLine { quote_depth, ..self }
    }

    pub fn as_table_row(self, cells: Vec<Vec<TextSegment>>, is_header: bool) -> (r: Self)
        ensures
            r@ == (LineV {
                table_cells: Some(cells_view(cells@)),
                is_table_header: is_header,
                ..self@
            }),
    {
        TextLine { table_cells: Some(cells), is_table_header: is_header, ..self }
    }

    pub fn is_empty(&self) -> (r: bool)
        ensures
            r == line_is_empty(self@),
    {
        if self.is_rule {
            return false;
        }
        let mut i: usize = 0;
        while i < self.segments.len()
            invariant
                !self.is_rule,
                i <= self.segments@.len(),
                forall|j: int| 0 <= j < i ==> blank_chars(#[trigger] self@.segments[j].text),
            decreases self.segments@.len() - i,
        {
            if !is_blank(self.segments[i].text.as_str()) {
                assert(!blank_chars(self@.segments[i as int].text));
                return false;
            }
            i += 1;
        }
        true
    }
}

/// Document structure: a collection of text lines.
#[derive(Debug, Clone)]
pub struct TextDocument {
    pub lines: Vec<TextLine>,
}

/// The values of a list of lines.
pub open spec fn lines_view(v: Seq<TextLine>) -> Seq<LineV> {
    v.map_values(|l: TextLine| l@)
}

impl View for TextDocument {
    type V = Seq<LineV>;

    open spec fn view(&self) -> Seq<LineV> {
        lines_view(self.lines@)
    }
}

impl Default for TextDocument {
    /// A document without lines.
    fn default() -> (r: Self)
        ensures
            r@ == Seq::<LineV>::empty(),
    {
        TextDocument::new()
    }
}

impl TextDocument {
    pub fn new() -> (r: Self)
        ensures
            r@ == Seq::<LineV>::empty(),
    {
        let r = TextDocument { lines: Vec::new() };
        assert(r@ =~= Seq::<LineV>::empty());
        r
    }

    pub fn add_line(&mut self, line: TextLine)
        ensures
            final(self)@ == old(self)@.push(line@),
    {
        self.lines.push(line);
        assert(lines_view(self.lines@) =~= lines_view(old(self).lines@).push(line@));
    }

    pub fn is_empty(&self) -> (r: bool)
        ensures
            r == (self@.len() == 0),
    {
        self.lines.len() == 0
    }
}

} // verus!
